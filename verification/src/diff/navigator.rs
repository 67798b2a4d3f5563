use vstd::prelude::*;
use crate::diff::{Diff, DiffHunk, HunkModel, HunkPosition};

verus! {

/// The screen line on which hunk `i` starts: every earlier hunk takes one
/// header line plus one line per diff line.
pub open spec fn hunk_start_line(hunks: Seq<HunkModel>, i: int) -> int
    decreases i,
{
    if i <= 0 {
        0
    } else {
        hunk_start_line(hunks, i - 1) + 1 + hunks[i - 1].lines.len()
    }
}

/// The screen position of hunk `i`.
pub open spec fn hunk_position(hunks: Seq<HunkModel>, i: int) -> HunkPosition {
    HunkPosition {
        start_line: hunk_start_line(hunks, i) as usize,
        end_line: hunk_start_line(hunks, i + 1) as usize,
        screen_y: hunk_start_line(hunks, i) as usize,
    }
}

/// The screen positions of all the hunks fit in a `usize`.
pub open spec fn positions_fit(hunks: Seq<HunkModel>) -> bool {
    hunk_start_line(hunks, hunks.len() as int) <= usize::MAX
}

/// The scroll offset that keeps `position` in a viewport of `height` lines
/// that now starts at `scroll`: scroll up to its start when it starts above,
/// scroll so that it ends at the bottom when it ends below.
pub open spec fn scroll_to_show(position: HunkPosition, scroll: usize, height: usize) -> usize {
    if position.start_line < scroll {
        position.start_line
    } else if position.end_line > scroll + height {
        if position.end_line >= height { (position.end_line - height) as usize } else { 0 }
    } else {
        scroll
    }
}

proof fn lemma_start_line_monotone(hunks: Seq<HunkModel>, i: int, j: int)
    requires
        0 <= i <= j <= hunks.len(),
    ensures
        hunk_start_line(hunks, i) <= hunk_start_line(hunks, j),
    decreases j - i,
{
    if i < j {
        lemma_start_line_monotone(hunks, i, j - 1);
    }
}

#[derive(Debug)]
pub struct HunkNavigator {
    pub current_hunk: usize,
    pub total_hunks: usize,
    pub hunk_positions: Vec<HunkPosition>,
    pub scroll_offset: usize,
}

impl HunkNavigator {
    pub fn new(diff: &Diff) -> (result: Self)
        requires
            positions_fit(diff@.hunks),
        ensures
            result.current_hunk == 0,
            result.total_hunks == diff.hunks@.len(),
            result.scroll_offset == 0,
            result.hunk_positions@.len() == diff.hunks@.len(),
            forall|i: int| 0 <= i < diff.hunks@.len() ==> #[trigger] result.hunk_positions@[i]
                == hunk_position(diff@.hunks, i),
    {
        let total_hunks = diff.hunks.len();
        let hunk_positions = Self::calculate_hunk_positions(diff);

        Self { current_hunk: 0, total_hunks, hunk_positions, scroll_offset: 0 }
    }

    /// Calculate screen positions for each hunk in the diff
    pub(crate) fn calculate_hunk_positions(diff: &Diff) -> (positions: Vec<HunkPosition>)
        requires
            positions_fit(diff@.hunks),
        ensures
            positions@.len() == diff.hunks@.len(),
            forall|i: int| 0 <= i < diff.hunks@.len() ==> #[trigger] positions@[i]
                == hunk_position(diff@.hunks, i),
    {
        let ghost hunks = diff@.hunks;
        let mut positions: Vec<HunkPosition> = Vec::new();
        let mut current_line: usize = 0;
        let mut k: usize = 0;
        while k < diff.hunks.len()
            invariant
                hunks == diff@.hunks,
                k <= diff.hunks@.len(),
                positions_fit(hunks),
                current_line == hunk_start_line(hunks, k as int),
                positions@.len() == k,
                forall|i: int| 0 <= i < k ==> #[trigger] positions@[i] == hunk_position(hunks, i),
            decreases diff.hunks@.len() - k,
        {
            let hunk: &DiffHunk = &diff.hunks[k];
            proof {
                lemma_start_line_monotone(hunks, k + 1, hunks.len() as int);
                assert(hunks[k as int] == hunk@);
            }
            let start_line = current_line;
            // Each hunk has: 1 header line + all diff lines
            let hunk_line_count = 1 + hunk.lines.len();
            let end_line = current_line + hunk_line_count;

            positions.push(HunkPosition { start_line, end_line, screen_y: start_line });

            current_line = end_line;
            k += 1;
        }

        positions
    }

    /// Navigate to the next hunk, wrapping around if at the end
    pub fn next_hunk(&mut self) -> (result: Option<usize>)
        requires
            old(self).total_hunks == 0 || old(self).current_hunk < usize::MAX,
        ensures
            old(self).total_hunks == 0 ==> result is None && *final(self) == *old(self),
            old(self).total_hunks > 0 ==> {
                &&& final(self).current_hunk == (old(self).current_hunk + 1) % (old(self).total_hunks as int)
                &&& result == Some(final(self).current_hunk)
                &&& final(self).total_hunks == old(self).total_hunks
                &&& final(self).hunk_positions == old(self).hunk_positions
                &&& final(self).scroll_offset == old(self).scroll_offset
            },
    {
        if self.total_hunks == 0 {
            return None;
        }

        self.current_hunk = (self.current_hunk + 1) % self.total_hunks;
        Some(self.current_hunk)
    }

    /// Navigate to the previous hunk, wrapping around if at the beginning
    pub fn previous_hunk(&mut self) -> (result: Option<usize>)
        ensures
            old(self).total_hunks == 0 ==> result is None && *final(self) == *old(self),
            old(self).total_hunks > 0 ==> {
                &&& final(self).current_hunk == if old(self).current_hunk == 0 {
                    old(self).total_hunks - 1
                } else {
                    old(self).current_hunk - 1
                }
                &&& result == Some(final(self).current_hunk)
                &&& final(self).total_hunks == old(self).total_hunks
                &&& final(self).hunk_positions == old(self).hunk_positions
                &&& final(self).scroll_offset == old(self).scroll_offset
            },
    {
        if self.total_hunks == 0 {
            return None;
        }

        self.current_hunk = if self.current_hunk == 0 {
            self.total_hunks - 1
        } else {
            self.current_hunk - 1
        };
        Some(self.current_hunk)
    }

    /// Get the screen position for the current hunk
    pub fn get_current_hunk_position(&self) -> (result: Option<&HunkPosition>)
        ensures
            self.current_hunk < self.hunk_positions@.len() ==> result == Some(
                &self.hunk_positions@[self.current_hunk as int],
            ),
            self.current_hunk >= self.hunk_positions@.len() ==> result is None,
    {
        self.get_hunk_position(self.current_hunk)
    }

    /// Get the screen position for a specific hunk
    pub fn get_hunk_position(&self, hunk_index: usize) -> (result: Option<&HunkPosition>)
        ensures
            hunk_index < self.hunk_positions@.len() ==> result == Some(
                &self.hunk_positions@[hunk_index as int],
            ),
            hunk_index >= self.hunk_positions@.len() ==> result is None,
    {
        if hunk_index < self.hunk_positions.len() {
            Some(&self.hunk_positions[hunk_index])
        } else {
            None
        }
    }

    /// Update scroll offset to keep the current hunk visible
    pub fn update_scroll_for_current_hunk(&mut self, viewport_height: usize)
        requires
            old(self).current_hunk < old(self).hunk_positions@.len() ==> old(self).scroll_offset
                + viewport_height <= usize::MAX,
        ensures
            final(self).current_hunk == old(self).current_hunk,
            final(self).total_hunks == old(self).total_hunks,
            final(self).hunk_positions == old(self).hunk_positions,
            final(self).scroll_offset == if old(self).current_hunk < old(
                self,
            ).hunk_positions@.len() {
                scroll_to_show(
                    old(self).hunk_positions@[old(self).current_hunk as int],
                    old(self).scroll_offset,
                    viewport_height,
                )
            } else {
                old(self).scroll_offset
            },
    {
        if self.current_hunk < self.hunk_positions.len() {
            let start_line = self.hunk_positions[self.current_hunk].start_line;
            let end_line = self.hunk_positions[self.current_hunk].end_line;
            // Check if current hunk is visible within the viewport
            let viewport_start = self.scroll_offset;
            let viewport_end = viewport_start + viewport_height;

            // If hunk starts before viewport, scroll up to show it
            if start_line < viewport_start {
                self.scroll_offset = start_line;
            }
            // If hunk ends after viewport, scroll down to show it
            else if end_line > viewport_end {
                // Try to position the hunk at the bottom of the viewport
                self.scroll_offset = end_line.saturating_sub(viewport_height);
            }
        }
    }

    /// Jump directly to a specific hunk
    pub fn jump_to_hunk(&mut self, hunk_index: usize, viewport_height: usize) -> (result: bool)
        requires
            hunk_index < old(self).total_hunks && hunk_index < old(self).hunk_positions@.len()
                ==> old(self).scroll_offset + viewport_height <= usize::MAX,
        ensures
            result == (hunk_index < old(self).total_hunks),
            !result ==> *final(self) == *old(self),
            result ==> {
                &&& final(self).current_hunk == hunk_index
                &&& final(self).total_hunks == old(self).total_hunks
                &&& final(self).hunk_positions == old(self).hunk_positions
                &&& final(self).scroll_offset == if hunk_index < old(self).hunk_positions@.len() {
                    scroll_to_show(
                        old(self).hunk_positions@[hunk_index as int],
                        old(self).scroll_offset,
                        viewport_height,
                    )
                } else {
                    old(self).scroll_offset
                }
            },
    {
        if hunk_index >= self.total_hunks {
            return false;
        }

        self.current_hunk = hunk_index;
        self.update_scroll_for_current_hunk(viewport_height);
        true
    }

    /// Get current hunk index
    pub fn current_hunk_index(&self) -> (result: usize)
        ensures
            result == self.current_hunk,
    {
        self.current_hunk
    }

    /// Check if there are any hunks to navigate
    pub fn has_hunks(&self) -> (result: bool)
        ensures
            result == (self.total_hunks > 0),
    {
        self.total_hunks > 0
    }

    /// Get total number of hunks
    pub fn hunk_count(&self) -> (result: usize)
        ensures
            result == self.total_hunks,
    {
        self.total_hunks
    }
}

} // verus!
