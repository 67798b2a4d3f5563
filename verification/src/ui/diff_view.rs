use vstd::prelude::*;
use crate::diff::generator::DiffError;
use crate::diff::navigator::{hunk_position, hunk_start_line, positions_fit};
use crate::diff::HunkNavigator;
use crate::diff::{Diff, HunkModel, HunkPosition};
use crate::diff::{DiffHunk, DiffLine};
use crate::text::{decimal, owned, push_decimal, push_str};
use crate::repository::{git_error_text, io_error_text};
use crate::ui::diff_renderer::{
    DiffRenderSettings, DiffRenderer, LineNumberWidths, diff_drawable, diff_rows, max_hunk_line_number, rows_view,
};
use crate::ui::styled::{BaseStyle, StyledText, TextStyle, ThemeColor, colored, colored_spec, piece, plain, plain_spec};

verus! {

/// What a diff view shows: a diff, or the error that kept it from being made.
pub enum DiffViewContent {
    Success(Diff),
    Error { file_path: String, error: DiffError },
}

/// The number of screen lines the hunks take: a header line and one line
/// per diff line each.
pub open spec fn total_lines_of(hunks: Seq<HunkModel>) -> int {
    hunk_start_line(hunks, hunks.len() as int)
}

/// `line` lies on hunk `i`, between its header and its last line.
pub open spec fn line_in_hunk(hunks: Seq<HunkModel>, i: int, line: int) -> bool {
    0 <= i < hunks.len() && hunk_start_line(hunks, i) <= line < hunk_start_line(hunks, i + 1)
}

/// The hunk that screen line `line` belongs to, if any.
pub open spec fn hunk_containing(hunks: Seq<HunkModel>, line: int) -> Option<usize> {
    if exists|i: int| line_in_hunk(hunks, i, line) {
        Some((choose|i: int| line_in_hunk(hunks, i, line)) as usize)
    } else {
        None
    }
}

/// The furthest the view scrolls: the last screen full of lines (one line
/// less when there are hunks, whose header can be pinned), or the last line
/// when the viewport has no room.
pub open spec fn max_scroll_of(total: int, viewport: int, has_hunks: bool) -> int {
    let effective = if has_hunks { if viewport >= 1 { viewport - 1 } else { 0 } } else { viewport };
    if effective == 0 {
        if total >= 1 { total - 1 } else { 0 }
    } else {
        if total >= effective { total - effective } else { 0 }
    }
}

/// `line` lies strictly inside hunk `i - 1`, past its header, and a hunk `i`
/// follows.
pub open spec fn inside_before(hunks: Seq<HunkModel>, i: int, line: int) -> bool {
    0 < i < hunks.len() && hunk_start_line(hunks, i - 1) < line < hunk_start_line(hunks, i)
}

/// Where a jump to the next hunk goes from scroll line `line`, as a hunk and
/// the line to scroll to: from inside a hunk, to the start of the next one;
/// from the start of a hunk, back to the first hunk; past the start of the
/// last hunk, nowhere.
pub open spec fn next_jump(hunks: Seq<HunkModel>, line: int) -> Option<(usize, usize)> {
    if exists|i: int| inside_before(hunks, i, line) {
        let i = choose|i: int| inside_before(hunks, i, line);
        Some((i as usize, hunk_start_line(hunks, i) as usize))
    } else if exists|i: int| 0 <= i < hunks.len() && hunk_start_line(hunks, i) >= line {
        Some((0, 0))
    } else {
        None
    }
}

/// `line` lies after the start of hunk `i - 1`, up to and including the
/// start of hunk `i`.
pub open spec fn after_start_of(hunks: Seq<HunkModel>, i: int, line: int) -> bool {
    0 < i < hunks.len() && hunk_start_line(hunks, i - 1) < line <= hunk_start_line(hunks, i)
}

/// Where a jump to the previous hunk goes from scroll line `line`: to the
/// start of the hunk the line is in, or of the one before when the line is
/// a hunk's start; past the start of the last hunk, to the last hunk; from
/// the top, nowhere.
pub open spec fn previous_jump(hunks: Seq<HunkModel>, line: int) -> Option<(usize, usize)> {
    if exists|i: int| after_start_of(hunks, i, line) {
        let i = choose|i: int| after_start_of(hunks, i, line);
        Some(((i - 1) as usize, hunk_start_line(hunks, i - 1) as usize))
    } else if line > 0 && hunks.len() > 0 {
        Some(((hunks.len() - 1) as usize, hunk_start_line(hunks, hunks.len() - 1) as usize))
    } else {
        None
    }
}

/// Every hunk starts at least one line after the one before it.
pub proof fn lemma_hunks_strictly_ordered(hunks: Seq<HunkModel>, i: int, j: int)
    requires
        0 <= i < j <= hunks.len(),
    ensures
        hunk_start_line(hunks, i) + (j - i) <= hunk_start_line(hunks, j),
    decreases j - i,
{
    if i + 1 < j {
        lemma_hunks_strictly_ordered(hunks, i, j - 1);
    }
}

proof fn lemma_start_line_nonnegative(hunks: Seq<HunkModel>, i: int)
    requires
        0 <= i <= hunks.len(),
    ensures
        0 <= hunk_start_line(hunks, i),
{
    if i > 0 {
        lemma_hunks_strictly_ordered(hunks, 0, i);
    }
}

/// A screen line belongs to at most one hunk.
pub proof fn lemma_line_in_one_hunk(hunks: Seq<HunkModel>, i: int, j: int, line: int)
    requires
        line_in_hunk(hunks, i, line),
        line_in_hunk(hunks, j, line),
    ensures
        i == j,
{
    if i < j {
        lemma_hunks_strictly_ordered(hunks, i + 1, j + 1);
        if i + 1 < j {
            lemma_hunks_strictly_ordered(hunks, i + 1, j);
        }
    } else if j < i {
        lemma_hunks_strictly_ordered(hunks, j + 1, i + 1);
        if j + 1 < i {
            lemma_hunks_strictly_ordered(hunks, j + 1, i);
        }
    }
}

/// Where the hunk positions fit in a `usize`, hunk `i`'s position holds its
/// start and end lines exactly.
pub proof fn lemma_position_exact(hunks: Seq<HunkModel>, i: int)
    requires
        positions_fit(hunks),
        0 <= i < hunks.len(),
    ensures
        hunk_position(hunks, i).start_line == hunk_start_line(hunks, i),
        hunk_position(hunks, i).end_line == hunk_start_line(hunks, i + 1),
        hunk_start_line(hunks, i) < hunk_start_line(hunks, i + 1),
{
    lemma_start_line_nonnegative(hunks, i);
    lemma_hunks_strictly_ordered(hunks, i, i + 1);
    if i + 1 < hunks.len() {
        lemma_hunks_strictly_ordered(hunks, i + 1, hunks.len() as int);
    }
}

/// A line lies strictly inside at most one hunk that has a successor.
proof fn lemma_inside_before_unique(hunks: Seq<HunkModel>, i: int, j: int, line: int)
    requires
        inside_before(hunks, i, line),
        inside_before(hunks, j, line),
    ensures
        i == j,
{
    if i < j {
        lemma_hunks_strictly_ordered(hunks, i, j - 1);
    } else if j < i {
        lemma_hunks_strictly_ordered(hunks, j, i - 1);
    }
}

proof fn lemma_after_start_of_unique(hunks: Seq<HunkModel>, i: int, j: int, line: int)
    requires
        after_start_of(hunks, i, line),
        after_start_of(hunks, j, line),
    ensures
        i == j,
{
    if i < j {
        lemma_hunks_strictly_ordered(hunks, i, j - 1);
    } else if j < i {
        lemma_hunks_strictly_ordered(hunks, j, i - 1);
    }
}

proof fn lemma_hunk_containing_is(hunks: Seq<HunkModel>, i: int, line: int)
    requires
        line_in_hunk(hunks, i, line),
    ensures
        hunk_containing(hunks, line) == Some(i as usize),
{
    let c = choose|k: int| line_in_hunk(hunks, k, line);
    lemma_line_in_one_hunk(hunks, i, c, line);
}

/// A scrolling view of one file's diff, which follows the hunk at the top.
pub struct DiffView {
    content: DiffViewContent,
    scroll_position: usize,
    viewport_height: usize,
    current_hunk_index: Option<usize>,
    settings: DiffRenderSettings,
    hunk_positions: Vec<HunkPosition>,
}

impl DiffView {
    /// The hunks shown: those of the diff, none for an error.
    pub closed spec fn hunk_models(&self) -> Seq<HunkModel> {
        match &self.content {
            DiffViewContent::Success(diff) => diff@.hunks,
            DiffViewContent::Error { .. } => Seq::empty(),
        }
    }

    /// What the view shows.
    pub closed spec fn content_spec(&self) -> &DiffViewContent {
        &self.content
    }

    /// The first screen line in view.
    pub closed spec fn scroll(&self) -> nat {
        self.scroll_position as nat
    }

    /// The number of screen lines in view.
    pub closed spec fn viewport(&self) -> nat {
        self.viewport_height as nat
    }

    /// The hunk the view follows.
    pub closed spec fn current(&self) -> Option<usize> {
        self.current_hunk_index
    }

    /// How lines are drawn.
    pub closed spec fn settings_spec(&self) -> DiffRenderSettings {
        self.settings
    }

    /// The stored hunk positions are those of the hunks, the followed hunk
    /// exists, and an error view follows none.
    pub closed spec fn wf(&self) -> bool {
        let hunks = self.hunk_models();
        &&& positions_fit(hunks)
        &&& self.hunk_positions@.len() == hunks.len()
        &&& forall|i: int| 0 <= i < hunks.len() ==> #[trigger] self.hunk_positions@[i] == hunk_position(hunks, i)
        &&& match self.current_hunk_index {
            Some(i) => i < hunks.len(),
            None => true,
        }
    }

    /// The number of screen lines the diff takes.
    pub open spec fn total(&self) -> int {
        total_lines_of(self.hunk_models())
    }

    /// The furthest this view scrolls.
    pub open spec fn max_scroll(&self) -> int {
        max_scroll_of(self.total(), self.viewport() as int, self.hunk_models().len() > 0)
    }

    /// Only the scroll position and the followed hunk differ between the views.
    pub open spec fn same_diff(&self, other: &Self) -> bool {
        &&& self.content_spec() == other.content_spec()
        &&& self.hunk_models() == other.hunk_models()
        &&& self.viewport() == other.viewport()
        &&& self.settings_spec() == other.settings_spec()
        &&& self.wf() == other.wf()
    }

    /// The scroll line is `line`, and the followed hunk is the one on it.
    pub open spec fn scrolled_to(&self, line: int) -> bool {
        &&& self.scroll() == line
        &&& self.current() == hunk_containing(self.hunk_models(), line)
    }

    pub fn new(diff: Diff, settings: DiffRenderSettings) -> (view: Self)
        requires
            positions_fit(diff@.hunks),
        ensures
            view.wf(),
            *view.content_spec() == DiffViewContent::Success(diff),
            view.hunk_models() == diff@.hunks,
            view.scroll() == 0,
            view.viewport() == 0,
            view.current() == (if diff@.hunks.len() == 0 { None } else { Some(0usize) }),
            view.settings_spec() == settings,
    {
        let current_hunk_index = if diff.hunks.len() == 0 { None } else { Some(0) };
        let hunk_positions = Self::calculate_hunk_positions_static(&diff);
        Self {
            content: DiffViewContent::Success(diff),
            scroll_position: 0,
            viewport_height: 0,
            current_hunk_index,
            settings,
            hunk_positions,
        }
    }

    pub fn new_with_error(file_path: String, error: DiffError, settings: DiffRenderSettings) -> (view: Self)
        ensures
            view.wf(),
            *view.content_spec() == (DiffViewContent::Error { file_path, error }),
            view.hunk_models() == Seq::<HunkModel>::empty(),
            view.scroll() == 0,
            view.viewport() == 0,
            view.current() == None::<usize>,
            view.settings_spec() == settings,
    {
        Self {
            content: DiffViewContent::Error { file_path, error },
            scroll_position: 0,
            viewport_height: 0,
            current_hunk_index: None,
            settings,
            hunk_positions: Vec::new(),
        }
    }

    fn calculate_hunk_positions_static(diff: &Diff) -> (positions: Vec<HunkPosition>)
        requires
            positions_fit(diff@.hunks),
        ensures
            positions@.len() == diff.hunks@.len(),
            forall|i: int| 0 <= i < diff.hunks@.len() ==> #[trigger] positions@[i] == hunk_position(diff@.hunks, i),
    {
        HunkNavigator::calculate_hunk_positions(diff)
    }

    /// What the view shows.
    pub fn content(&self) -> (content: &DiffViewContent)
        ensures
            content == self.content_spec(),
    {
        &self.content
    }

    /// The first screen line in view.
    pub fn scroll_position(&self) -> (line: usize)
        ensures
            line == self.scroll(),
    {
        self.scroll_position
    }

    /// The number of screen lines in view.
    pub fn viewport_height(&self) -> (height: usize)
        ensures
            height == self.viewport(),
    {
        self.viewport_height
    }

    /// The screen position of each hunk.
    pub fn hunk_positions(&self) -> (positions: &[HunkPosition])
        requires
            self.wf(),
        ensures
            positions@.len() == self.hunk_models().len(),
            forall|i: int| 0 <= i < positions@.len() ==> #[trigger] positions@[i] == hunk_position(self.hunk_models(), i),
    {
        self.hunk_positions.as_slice()
    }

    /// The number of screen lines the diff takes.
    fn get_total_lines(&self) -> (total: usize)
        requires
            self.wf(),
        ensures
            total == self.total(),
    {
        let count = self.hunk_positions.len();
        if count == 0 {
            0
        } else {
            proof {
                lemma_position_exact(self.hunk_models(), count - 1);
            }
            self.hunk_positions[count - 1].end_line
        }
    }

    fn has_hunks(&self) -> (has: bool)
        requires
            self.wf(),
        ensures
            has == (self.hunk_models().len() > 0),
    {
        self.hunk_positions.len() > 0
    }

    fn get_max_scroll_position(&self) -> (line: usize)
        requires
            self.wf(),
        ensures
            line == self.max_scroll(),
    {
        let total_lines = self.get_total_lines();
        let effective_viewport = if self.has_hunks() {
            self.viewport_height.saturating_sub(1)
        } else {
            self.viewport_height
        };
        if effective_viewport == 0 {
            total_lines.saturating_sub(1)
        } else {
            total_lines.saturating_sub(effective_viewport)
        }
    }

    /// The hunk that screen line `line_index` belongs to, found by binary search.
    pub fn find_hunk_for_line(&self, line_index: usize) -> (hunk: Option<usize>)
        requires
            self.wf(),
        ensures
            hunk == hunk_containing(self.hunk_models(), line_index as int),
    {
        let ghost hunks = self.hunk_models();
        let mut low: usize = 0;
        let mut high: usize = self.hunk_positions.len();
        while low < high
            invariant
                self.wf(),
                hunks == self.hunk_models(),
                low <= high <= hunks.len(),
                low > 0 ==> hunk_start_line(hunks, low as int) <= line_index,
                high < hunks.len() ==> line_index < hunk_start_line(hunks, high as int),
            decreases high - low,
        {
            let mid = low + (high - low) / 2;
            let position = self.hunk_positions[mid];
            assert(position == hunk_position(hunks, mid as int));
            proof {
                lemma_position_exact(hunks, mid as int);
            }
            if line_index < position.start_line {
                high = mid;
            } else if line_index >= position.end_line {
                low = mid + 1;
            } else {
                proof {
                    lemma_hunk_containing_is(hunks, mid as int, line_index as int);
                }
                return Some(mid);
            }
        }
        proof {
            if exists|i: int| line_in_hunk(hunks, i, line_index as int) {
                let i = choose|i: int| line_in_hunk(hunks, i, line_index as int);
                if i < low {
                    if i + 1 < low {
                        lemma_hunks_strictly_ordered(hunks, i + 1, low as int);
                    }
                } else {
                    if low < i {
                        lemma_hunks_strictly_ordered(hunks, low as int, i);
                    }
                }
                assert(false);
            }
        }
        None
    }

    fn sync_current_hunk_from_scroll(&mut self)
        requires
            old(self).wf(),
        ensures
            final(self).wf(),
            final(self).same_diff(&*old(self)),
            final(self).scrolled_to(old(self).scroll() as int),
    {
        if let DiffViewContent::Success(_) = &self.content {
            self.current_hunk_index = self.find_hunk_for_line(self.scroll_position);
        } else {
            assert(self.current_hunk_index is None);
        }
        proof {
            if let Some(i) = self.current_hunk_index {
                let hunks = self.hunk_models();
                let c = choose|k: int| line_in_hunk(hunks, k, self.scroll_position as int);
                assert(line_in_hunk(hunks, c, self.scroll_position as int));
            }
        }
    }

    /// Scrolls `lines` lines up, stopping at the top.
    pub fn scroll_up(&mut self, lines: usize)
        requires
            old(self).wf(),
        ensures
            final(self).wf(),
            final(self).same_diff(&*old(self)),
            final(self).scrolled_to(if old(self).scroll() >= lines { old(self).scroll() - lines } else { 0 }),
    {
        self.scroll_position = self.scroll_position.saturating_sub(lines);
        self.sync_current_hunk_from_scroll();
    }

    /// Scrolls `lines` lines down, stopping at the furthest scroll.
    pub fn scroll_down(&mut self, lines: usize)
        requires
            old(self).wf(),
            old(self).scroll() + lines <= usize::MAX,
        ensures
            final(self).wf(),
            final(self).same_diff(&*old(self)),
            final(self).scrolled_to(
                if old(self).scroll() + lines <= old(self).max_scroll() {
                    old(self).scroll() + lines
                } else {
                    old(self).max_scroll()
                },
            ),
    {
        let max_scroll = self.get_max_scroll_position();
        let target = self.scroll_position + lines;
        self.scroll_position = if target <= max_scroll { target } else { max_scroll };
        self.sync_current_hunk_from_scroll();
    }

    /// Scrolls up by a screen less two lines of overlap.
    pub fn page_up(&mut self)
        requires
            old(self).wf(),
        ensures
            final(self).wf(),
            final(self).same_diff(&*old(self)),
            final(self).scrolled_to({
                let page = if old(self).viewport() >= 2 { old(self).viewport() - 2 } else { 0 };
                if old(self).scroll() >= page { old(self).scroll() - page } else { 0 }
            }),
    {
        let page_size = self.viewport_height.saturating_sub(2);
        self.scroll_up(page_size);
    }

    /// Scrolls down by a screen less two lines of overlap.
    pub fn page_down(&mut self)
        requires
            old(self).wf(),
            old(self).scroll() + old(self).viewport() <= usize::MAX,
        ensures
            final(self).wf(),
            final(self).same_diff(&*old(self)),
            final(self).scrolled_to({
                let page = if old(self).viewport() >= 2 { old(self).viewport() - 2 } else { 0 };
                if old(self).scroll() + page <= old(self).max_scroll() {
                    old(self).scroll() + page
                } else {
                    old(self).max_scroll()
                }
            }),
    {
        let page_size = self.viewport_height.saturating_sub(2);
        self.scroll_down(page_size);
    }

    /// Scrolls to the top.
    pub fn go_to_top(&mut self)
        requires
            old(self).wf(),
        ensures
            final(self).wf(),
            final(self).same_diff(&*old(self)),
            final(self).scrolled_to(0),
    {
        self.scroll_position = 0;
        self.sync_current_hunk_from_scroll();
    }

    /// Scrolls as far down as the view goes.
    pub fn go_to_bottom(&mut self)
        requires
            old(self).wf(),
        ensures
            final(self).wf(),
            final(self).same_diff(&*old(self)),
            final(self).scrolled_to(old(self).max_scroll()),
    {
        let max_scroll = self.get_max_scroll_position();
        self.scroll_position = max_scroll;
        self.sync_current_hunk_from_scroll();
    }

    /// Fits the view to an area `area_height` rows high, borders included.
    pub fn update_viewport_height(&mut self, area_height: u16)
        requires
            old(self).wf(),
        ensures
            final(self).wf(),
            final(self).content_spec() == old(self).content_spec(),
            final(self).hunk_models() == old(self).hunk_models(),
            final(self).settings_spec() == old(self).settings_spec(),
            final(self).scroll() == old(self).scroll(),
            final(self).current() == old(self).current(),
            final(self).viewport() == (if area_height >= 2 { area_height - 2 } else { 0 }),
    {
        self.viewport_height = area_height.saturating_sub(2) as usize;
    }

    /// The number of hunks shown.
    pub fn get_hunk_count(&self) -> (count: usize)
        requires
            self.wf(),
        ensures
            count == self.hunk_models().len(),
    {
        match &self.content {
            DiffViewContent::Success(diff) => {
                assert(diff.hunks@.len() == diff@.hunks.len());
                diff.hunks.len()
            },
            DiffViewContent::Error { .. } => 0,
        }
    }

    /// The hunk the view follows.
    pub fn get_current_hunk_index(&self) -> (index: Option<usize>)
        ensures
            index == self.current(),
    {
        self.current_hunk_index
    }

    fn scroll_to_hunk(&mut self, hunk_index: usize)
        requires
            old(self).wf(),
        ensures
            final(self).wf(),
            final(self).same_diff(&*old(self)),
            final(self).current() == old(self).current(),
            final(self).scroll() == (if hunk_index < old(self).hunk_models().len() {
                hunk_start_line(old(self).hunk_models(), hunk_index as int)
            } else {
                old(self).scroll() as int
            }),
    {
        if hunk_index >= self.hunk_positions.len() {
            return;
        }
        proof {
            lemma_position_exact(self.hunk_models(), hunk_index as int);
        }
        self.scroll_position = self.hunk_positions[hunk_index].start_line;
    }

    /// Follows the next hunk, wrapping to the first after the last, and
    /// scrolls to its start.
    pub fn navigate_to_next_hunk(&mut self)
        requires
            old(self).wf(),
        ensures
            final(self).wf(),
            final(self).same_diff(&*old(self)),
            old(self).hunk_models().len() == 0 ==> *final(self) == *old(self),
            old(self).hunk_models().len() > 0 ==> {
                let next = match old(self).current() {
                    Some(c) => ((c + 1) % old(self).hunk_models().len() as int) as usize,
                    None => 0usize,
                };
                &&& final(self).current() == Some(next)
                &&& final(self).scroll() == hunk_start_line(old(self).hunk_models(), next as int)
            },
    {
        let count = self.hunk_positions.len();
        if count == 0 {
            return;
        }
        let next_index = match self.current_hunk_index {
            Some(current) => (current + 1) % count,
            None => 0,
        };
        self.current_hunk_index = Some(next_index);
        self.scroll_to_hunk(next_index);
    }

    /// Follows the previous hunk, wrapping to the last before the first, and
    /// scrolls to its start.
    pub fn navigate_to_previous_hunk(&mut self)
        requires
            old(self).wf(),
        ensures
            final(self).wf(),
            final(self).same_diff(&*old(self)),
            old(self).hunk_models().len() == 0 ==> *final(self) == *old(self),
            old(self).hunk_models().len() > 0 ==> {
                let n = old(self).hunk_models().len();
                let previous = match old(self).current() {
                    Some(c) => if c == 0 { (n - 1) as usize } else { (c - 1) as usize },
                    None => (n - 1) as usize,
                };
                &&& final(self).current() == Some(previous)
                &&& final(self).scroll() == hunk_start_line(old(self).hunk_models(), previous as int)
            },
    {
        let count = self.hunk_positions.len();
        if count == 0 {
            return;
        }
        let previous_index = match self.current_hunk_index {
            Some(current) => if current == 0 { count - 1 } else { current - 1 },
            None => count - 1,
        };
        self.current_hunk_index = Some(previous_index);
        self.scroll_to_hunk(previous_index);
    }

    /// Jumps from the scroll line to the next hunk's start (see `next_jump`).
    pub fn jump_to_next_hunk(&mut self)
        requires
            old(self).wf(),
        ensures
            final(self).wf(),
            final(self).same_diff(&*old(self)),
            match next_jump(old(self).hunk_models(), old(self).scroll() as int) {
                Some((index, line)) => final(self).current() == Some(index) && final(self).scroll() == line,
                None => final(self).current() == old(self).current() && final(self).scroll() == old(self).scroll(),
            },
    {
        let ghost hunks = self.hunk_models();
        let count = self.hunk_positions.len();
        if count == 0 {
            return;
        }
        let current_line = self.scroll_position;
        let mut found_current = false;
        let mut k: usize = 0;
        while k < count
            invariant
                self.wf(),
                hunks == self.hunk_models(),
                count == hunks.len(),
                current_line == self.scroll_position,
                k <= count,
                *self == *old(self),
                found_current == exists|j: int| 0 <= j < k && hunk_start_line(hunks, j) >= current_line,
                forall|i: int| 0 < i < k ==> !inside_before(hunks, i, current_line as int),
            decreases count - k,
        {
            let line_count = self.hunk_positions[k].start_line;
            assert(self.hunk_positions@[k as int] == hunk_position(hunks, k as int));
            proof {
                lemma_position_exact(hunks, k as int);
            }
            if line_count > current_line && !found_current {
                proof {
                    if k == 0 {
                        assert(hunk_start_line(hunks, 0) == 0);
                    }
                    assert(hunk_start_line(hunks, k - 1) < current_line) by {
                        if hunk_start_line(hunks, k - 1) >= current_line {
                            assert(0 <= k - 1 < k && hunk_start_line(hunks, k - 1) >= current_line);
                        }
                    }
                    assert(inside_before(hunks, k as int, current_line as int));
                    let c = choose|i: int| inside_before(hunks, i, current_line as int);
                    lemma_inside_before_unique(hunks, k as int, c, current_line as int);
                }
                self.current_hunk_index = Some(k);
                self.scroll_position = line_count;
                return;
            }
            proof {
                if inside_before(hunks, k as int, current_line as int) {
                    let j = choose|j: int| 0 <= j < k && hunk_start_line(hunks, j) >= current_line;
                    if j < k - 1 {
                        lemma_hunks_strictly_ordered(hunks, j, k - 1);
                    }
                }
            }
            if line_count >= current_line {
                found_current = true;
            }
            k += 1;
        }
        if found_current {
            self.current_hunk_index = Some(0);
            self.scroll_position = 0;
        }
    }

    /// Jumps from the scroll line to the previous hunk's start (see
    /// `previous_jump`).
    pub fn jump_to_previous_hunk(&mut self)
        requires
            old(self).wf(),
        ensures
            final(self).wf(),
            final(self).same_diff(&*old(self)),
            match previous_jump(old(self).hunk_models(), old(self).scroll() as int) {
                Some((index, line)) => final(self).current() == Some(index) && final(self).scroll() == line,
                None => final(self).current() == old(self).current() && final(self).scroll() == old(self).scroll(),
            },
    {
        let ghost hunks = self.hunk_models();
        let count = self.hunk_positions.len();
        if count == 0 {
            return;
        }
        let current_line = self.scroll_position;
        let mut last_hunk_start: usize = 0;
        let mut last_hunk_index: usize = 0;
        let mut k: usize = 0;
        while k < count
            invariant
                self.wf(),
                hunks == self.hunk_models(),
                count == hunks.len(),
                current_line == self.scroll_position,
                k <= count,
                *self == *old(self),
                k == 0 ==> last_hunk_start == 0 && last_hunk_index == 0,
                k > 0 ==> last_hunk_index == k - 1 && last_hunk_start == hunk_start_line(hunks, k - 1),
                forall|i: int| 0 < i < k ==> !after_start_of(hunks, i, current_line as int),
            decreases count - k,
        {
            let line_count = self.hunk_positions[k].start_line;
            assert(self.hunk_positions@[k as int] == hunk_position(hunks, k as int));
            proof {
                lemma_position_exact(hunks, k as int);
            }
            if line_count >= current_line && last_hunk_start < current_line {
                proof {
                    assert(after_start_of(hunks, k as int, current_line as int));
                    let c = choose|i: int| after_start_of(hunks, i, current_line as int);
                    lemma_after_start_of_unique(hunks, k as int, c, current_line as int);
                }
                self.current_hunk_index = Some(last_hunk_index);
                self.scroll_position = last_hunk_start;
                return;
            }
            last_hunk_start = line_count;
            last_hunk_index = k;
            k += 1;
        }
        if current_line > 0 {
            self.current_hunk_index = Some(count - 1);
            self.scroll_position = last_hunk_start;
        }
    }

    /// The hunk to highlight: the followed one, or else the one at the scroll line.
    pub fn resolve_active_hunk_index(&self) -> (index: Option<usize>)
        requires
            self.wf(),
        ensures
            index == match self.current() {
                Some(i) if i < self.hunk_models().len() => Some(i),
                _ => hunk_containing(self.hunk_models(), self.scroll() as int),
            },
    {
        match self.current_hunk_index {
            Some(index) if index < self.hunk_positions.len() => Some(index),
            _ => self.find_hunk_for_line(self.scroll_position),
        }
    }
}

/// The rows of `rows` from `start` on, at most `height` of them, leaving out
/// row `skip`: what the first `k` rows contribute.
pub open spec fn visible_window<T>(rows: Seq<T>, start: int, height: int, skip: Option<int>, k: int) -> Seq<T>
    decreases k,
{
    if k <= 0 {
        Seq::empty()
    } else {
        let before = visible_window(rows, start, height, skip, k - 1);
        if k - 1 >= start && skip != Some(k - 1) && before.len() < height {
            before.push(rows[k - 1])
        } else {
            before
        }
    }
}

/// The lines a diff is drawn as under the settings, with the hunk `active`
/// highlighted.
pub open spec fn drawn_rows(hunks: Seq<DiffHunk>, settings: DiffRenderSettings, active: Option<usize>) -> Seq<
    Seq<(Seq<char>, TextStyle)>,
> {
    diff_rows(
        hunks,
        if settings.show_line_numbers {
            Some(
                LineNumberWidths {
                    old: decimal(max_hunk_line_number(hunks, true)).len() as usize,
                    new: decimal(max_hunk_line_number(hunks, false)).len() as usize,
                },
            )
        } else {
            None
        },
        active,
        None,
        settings.tab_width as nat,
        hunks.len() as int,
    )
}

/// The number of drawn rows of the first `k` hunks is where hunk `k` starts.
proof fn lemma_drawn_rows_len(
    hunks: Seq<DiffHunk>,
    widths: Option<LineNumberWidths>,
    active: Option<usize>,
    prefix: Option<Seq<char>>,
    tab_width: nat,
    k: int,
)
    requires
        0 <= k <= hunks.len(),
    ensures
        diff_rows(hunks, widths, active, prefix, tab_width, k).len() == hunk_start_line(
            hunks.map_values(|h: DiffHunk| h@),
            k,
        ),
    decreases k,
{
    if k > 0 {
        lemma_drawn_rows_len(hunks, widths, active, prefix, tab_width, k - 1);
        let hunk = hunks[k - 1];
        let is_active = active == Some((k - 1) as usize);
        assert(hunk.lines@.map_values(|l: DiffLine| crate::ui::diff_renderer::diff_line_pieces(l, widths, is_active, prefix, tab_width)).len()
            == hunk.lines@.len());
    }
}

/// What a diff view draws in a viewport: the visible rows, the header of
/// the followed hunk pinned on top when its start has scrolled out of view,
/// and whether a scrollbar is shown.
pub struct DiffScreen {
    pub sticky_header: Option<StyledText>,
    pub rows: Vec<Vec<StyledText>>,
    pub show_scrollbar: bool,
}

impl DiffView {
    /// Draws the diff with the settings of this view, highlighting the hunk
    /// `active_hunk_index`.
    pub fn generate_diff_lines(&self, diff: &Diff, active_hunk_index: Option<usize>) -> (rows: Vec<Vec<StyledText>>)
        requires
            diff_drawable(diff.hunks@, self.settings_spec().tab_width as nat),
        ensures
            rows_view(rows@) == drawn_rows(diff.hunks@, self.settings_spec(), active_hunk_index),
    {
        let renderer = DiffRenderer::new(self.settings);
        renderer.generate_diff_lines(diff, active_hunk_index, None)
    }

    /// Keeps, in order, the lines of `diff_lines` from `visible_start` on, at
    /// most `content_height` of them, leaving out `skip_line`.
    pub fn collect_visible_lines(
        &self,
        diff_lines: Vec<Vec<StyledText>>,
        visible_start: usize,
        content_height: usize,
        skip_line: Option<usize>,
    ) -> (lines: Vec<Vec<StyledText>>)
        ensures
            rows_view(lines@) == visible_window(
                rows_view(diff_lines@),
                visible_start as int,
                content_height as int,
                match skip_line {
                    Some(l) => Some(l as int),
                    None => None,
                },
                diff_lines@.len() as int,
            ),
    {
        let ghost all = diff_lines@;
        assert(all.len() == diff_lines.len());
        let ghost skip = match skip_line {
            Some(l) => Some(l as int),
            None => None::<int>,
        };
        let mut lines: Vec<Vec<StyledText>> = Vec::new();
        let mut index: usize = 0;
        for line in it: diff_lines
            invariant
                it.seq() == all,
                index == it.index(),
                index <= all.len(),
                all.len() <= usize::MAX,
                skip == match skip_line {
                    Some(l) => Some(l as int),
                    None => None::<int>,
                },
                rows_view(lines@) == visible_window(
                    rows_view(all),
                    visible_start as int,
                    content_height as int,
                    skip,
                    index as int,
                ),
                lines@.len() == rows_view(lines@).len(),
        {
            let ghost before = rows_view(lines@);
            let keep = index >= visible_start && lines.len() < content_height && match skip_line {
                Some(l) => l != index,
                None => true,
            };
            if keep {
                let ghost line_view = rows_view(seq![line])[0];
                lines.push(line);
                assert(rows_view(lines@) =~= before.push(line_view));
            }
            assert(rows_view(all)[index as int] == crate::ui::styled::line_view(all[index as int]@));
            index += 1;
        }
        lines
    }

    /// What the view draws in a viewport `viewport_height` rows high: the
    /// followed (or else the top) hunk highlighted; its header pinned on top,
    /// taking a row, when its start lies above the scroll line; the rows
    /// from the scroll line on that fit; a scrollbar when the diff is taller
    /// than the viewport.
    pub fn visible_screen(&self, viewport_height: usize) -> (screen: DiffScreen)
        requires
            self.wf(),
            self.content_spec() is Success,
            diff_drawable(
                match self.content_spec() {
                    DiffViewContent::Success(diff) => diff.hunks@,
                    _ => Seq::empty(),
                },
                self.settings_spec().tab_width as nat,
            ),
        ensures
            ({
                let hunks = self.hunk_models();
                let active = match self.current() {
                    Some(i) if i < hunks.len() => Some(i),
                    _ => hunk_containing(hunks, self.scroll() as int),
                };
                let diff_hunks = match self.content_spec() {
                    DiffViewContent::Success(diff) => diff.hunks@,
                    _ => Seq::empty(),
                };
                let rows = drawn_rows(diff_hunks, self.settings_spec(), active);
                let total = total_lines_of(hunks);
                let start = if self.scroll() <= total { self.scroll() as int } else { total };
                let pinned = match active {
                    Some(i) if hunk_start_line(hunks, i as int) < start => Some(i),
                    _ => None,
                };
                let height = if pinned is Some {
                    if viewport_height >= 1 { viewport_height - 1 } else { 0 }
                } else {
                    viewport_height as int
                };
                let skip = match pinned {
                    Some(i) => Some(hunk_start_line(hunks, i as int)),
                    None => None,
                };
                &&& rows.len() == total
                &&& rows_view(screen.rows@) == visible_window(rows, start, height, skip, total)
                &&& match pinned {
                    Some(i) => screen.sticky_header matches Some(h) && h@ == (
                        hunks[i as int].header.raw,
                        TextStyle { base: BaseStyle::HunkHeader, ..plain_spec() },
                    ),
                    None => screen.sticky_header is None,
                }
                &&& screen.show_scrollbar == (total > viewport_height)
            }),
    {
        let ghost hunks = self.hunk_models();
        let active_hunk_index = self.resolve_active_hunk_index();
        match &self.content {
            DiffViewContent::Success(diff) => {
                let diff_lines = self.generate_diff_lines(diff, active_hunk_index);
                proof {
                    lemma_drawn_rows_len(
                        diff.hunks@,
                        if self.settings.show_line_numbers {
                            Some(
                                LineNumberWidths {
                                    old: decimal(max_hunk_line_number(diff.hunks@, true)).len() as usize,
                                    new: decimal(max_hunk_line_number(diff.hunks@, false)).len() as usize,
                                },
                            )
                        } else {
                            None
                        },
                        active_hunk_index,
                        None,
                        self.settings.tab_width as nat,
                        diff.hunks@.len() as int,
                    );
                    assert(diff_lines@.len() == rows_view(diff_lines@).len());
                }
                let total_lines = diff_lines.len();
                let visible_start = if self.scroll_position <= total_lines { self.scroll_position } else { total_lines };
                let pinned_header_line = match active_hunk_index {
                    Some(index) => {
                        proof {
                            lemma_position_exact(hunks, index as int);
                        }
                        Some(self.hunk_positions[index].start_line)
                    },
                    None => None,
                };
                let should_pin_header = match pinned_header_line {
                    Some(line) => line < visible_start,
                    None => false,
                };
                let content_viewport_height = if should_pin_header {
                    viewport_height.saturating_sub(1)
                } else {
                    viewport_height
                };
                let rows = self.collect_visible_lines(
                    diff_lines,
                    visible_start,
                    content_viewport_height,
                    if should_pin_header { pinned_header_line } else { None },
                );
                let sticky_header = if should_pin_header {
                    match active_hunk_index {
                        Some(index) => {
                            let hunk = &diff.hunks[index];
                            assert(diff@.hunks[index as int] == hunk@);
                            Some(piece(hunk.header.raw.clone(), TextStyle { base: BaseStyle::HunkHeader, ..plain() }))
                        },
                        None => None,
                    }
                } else {
                    None
                };
                DiffScreen { sticky_header, rows, show_scrollbar: total_lines > viewport_height }
            },
            DiffViewContent::Error { .. } => {
                DiffScreen { sticky_header: None, rows: Vec::new(), show_scrollbar: false }
            },
        }
    }
}

/// The notice a view shows in place of a binary file's diff.
pub open spec fn binary_notice_text() -> Seq<char> {
    "Binary file - cannot display diff"@
}

/// The notice for a binary file, in the color of the no-newline marker.
pub fn binary_notice() -> (notice: StyledText)
    ensures
        notice@ == (binary_notice_text(), colored_spec(ThemeColor::DiffNoNewline)),
{
    piece(owned("Binary file - cannot display diff"), colored(ThemeColor::DiffNoNewline))
}

/// What the notice for an error says and in which color; of a git or I/O
/// error, the prefix before the error's own message.
pub open spec fn error_notice_matches(error: &DiffError, notice: StyledText) -> bool {
    match error {
        DiffError::BinaryFile(_) => notice@ == (binary_notice_text(), colored_spec(ThemeColor::DiffNoNewline)),
        DiffError::FileTooLarge(size, _) => notice@ == (
            "File too large ("@ + decimal(*size as nat) + " bytes) - cannot display diff"@,
            colored_spec(ThemeColor::Unstaged),
        ),
        DiffError::TerminalCompatibility(message) => notice@ == (
            "Terminal compatibility issue: "@ + message@,
            colored_spec(ThemeColor::Untracked),
        ),
        DiffError::FileNotFound(_) => notice@ == ("File not found"@, colored_spec(ThemeColor::Unstaged)),
        DiffError::Git(_) => "Git error: "@.is_prefix_of(notice.text@) && notice.style == colored_spec(
            ThemeColor::Unstaged,
        ),
        DiffError::Io(_) => "I/O error: "@.is_prefix_of(notice.text@) && notice.style == colored_spec(
            ThemeColor::Unstaged,
        ),
    }
}

/// The notice a view shows for the error that kept its diff from being
/// made, with its color; a git or I/O error's own message follows its
/// prefix.
pub fn error_notice(error: &DiffError) -> (notice: StyledText)
    ensures
        error_notice_matches(error, notice),
{
    match error {
        DiffError::BinaryFile(_) => binary_notice(),
        DiffError::FileTooLarge(size, _) => {
            let mut text = owned("File too large (");
            push_decimal(&mut text, *size);
            push_str(&mut text, " bytes) - cannot display diff");
            piece(text, colored(ThemeColor::Unstaged))
        },
        DiffError::TerminalCompatibility(message) => {
            let mut text = owned("Terminal compatibility issue: ");
            push_str(&mut text, message.as_str());
            piece(text, colored(ThemeColor::Untracked))
        },
        DiffError::FileNotFound(_) => piece(owned("File not found"), colored(ThemeColor::Unstaged)),
        DiffError::Git(e) => {
            let mut text = owned("Git error: ");
            let ghost prefix = text@;
            push_str(&mut text, git_error_text(e).as_str());
            assert(prefix.is_prefix_of(text@)) by {
                assert(text@.subrange(0, prefix.len() as int) =~= prefix);
            }
            piece(text, colored(ThemeColor::Unstaged))
        },
        DiffError::Io(e) => {
            let mut text = owned("I/O error: ");
            let ghost prefix = text@;
            push_str(&mut text, io_error_text(e).as_str());
            assert(prefix.is_prefix_of(text@)) by {
                assert(text@.subrange(0, prefix.len() as int) =~= prefix);
            }
            piece(text, colored(ThemeColor::Unstaged))
        },
    }
}

impl DiffView {
    /// The title of the view's frame: the file's path, marked as binary or
    /// as an error where the view shows a notice.
    pub fn frame_title(&self) -> (title: String)
        ensures
            title@ == match self.content_spec() {
                DiffViewContent::Success(diff) => if diff.binary {
                    " "@ + diff.file_path@ + " (binary) "@
                } else {
                    " "@ + diff.file_path@ + " "@
                },
                DiffViewContent::Error { file_path, .. } => " "@ + file_path@ + " (error) "@,
            },
    {
        let mut title = owned(" ");
        match self.content() {
            DiffViewContent::Success(diff) => {
                push_str(&mut title, diff.file_path.as_str());
                if diff.binary {
                    push_str(&mut title, " (binary) ");
                } else {
                    push_str(&mut title, " ");
                }
            },
            DiffViewContent::Error { file_path, .. } => {
                push_str(&mut title, file_path.as_str());
                push_str(&mut title, " (error) ");
            },
        }
        title
    }

    /// The notice the view shows in place of a diff: for a binary file or
    /// an error; none where it draws the diff.
    pub fn notice(&self) -> (notice: Option<StyledText>)
        ensures
            match self.content_spec() {
                DiffViewContent::Success(diff) => if diff.binary {
                    notice matches Some(n) && n@ == (binary_notice_text(), colored_spec(ThemeColor::DiffNoNewline))
                } else {
                    notice is None
                },
                DiffViewContent::Error { error, .. } => notice matches Some(n) && error_notice_matches(error, n),
            },
    {
        match self.content() {
            DiffViewContent::Success(diff) => if diff.binary {
                Some(binary_notice())
            } else {
                None
            },
            DiffViewContent::Error { error, .. } => Some(error_notice(error)),
        }
    }
}

} // verus!
