use vstd::prelude::*;
use crate::text::{decimal, push_decimal, push_str};

pub mod inline;
pub mod navigator;
pub use navigator::HunkNavigator;
pub mod parser;
pub mod generator;
pub mod syntax;




verus! {

#[derive(Debug, Clone)]
pub struct Diff {
    pub file_path: String,
    pub context: DiffContext,
    pub hunks: Vec<DiffHunk>,
    pub binary: bool,
}

#[derive(Debug, Clone, Copy, PartialEq, Eq, Structural)]
pub enum DiffContext {
    /// Unstaged changes
    WorkingTreeToIndex,
    /// Staged changes
    IndexToHead,
    /// All changes
    WorkingTreeToHead,
}

#[derive(Debug, Clone)]
pub struct DiffHunk {
    pub header: HunkHeader,
    pub lines: Vec<DiffLine>,
    pub old_range: LineRange,
    pub new_range: LineRange,
    pub stageable: bool,
    pub context_lines: usize,
}

#[derive(Debug, Clone)]
pub struct HunkHeader {
    pub raw: String,
    pub old_start: u32,
    pub old_lines: u32,
    pub new_start: u32,
    pub new_lines: u32,
}

#[derive(Debug, Clone, Copy, PartialEq, Eq, Structural)]
pub struct LineRange {
    pub start: u32,
    pub count: u32,
}

#[derive(Debug, Clone)]
pub struct DiffLine {
    pub content: String,
    pub line_type: LineType,
    pub old_line_no: Option<usize>,
    pub new_line_no: Option<usize>,
    pub inline_diff: Option<InlineDiff>,
}

#[derive(Debug, Clone, Copy, PartialEq, Eq, Structural)]
pub enum LineType {
    Context,
    Addition,
    Deletion,
    NoNewlineEOF,
}

#[derive(Debug, Clone, PartialEq)]
pub struct InlineDiff {
    pub segments: Vec<InlineDiffSegment>,
}

#[derive(Debug, Clone, PartialEq)]
pub struct InlineDiffSegment {
    pub content: String,
    pub change: InlineChange,
}

#[derive(Debug, Clone, Copy, PartialEq, Eq, Structural)]
pub enum InlineChange {
    Unchanged,
    Added,
    Removed,
}

#[derive(Debug, Clone, Copy, PartialEq, Eq, Structural)]
pub struct HunkPosition {
    pub start_line: usize,
    pub end_line: usize,
    pub screen_y: usize,
}

impl View for InlineDiffSegment {
    type V = (Seq<char>, InlineChange);

    open spec fn view(&self) -> (Seq<char>, InlineChange) {
        (self.content@, self.change)
    }
}

impl View for InlineDiff {
    type V = Seq<(Seq<char>, InlineChange)>;

    open spec fn view(&self) -> Seq<(Seq<char>, InlineChange)> {
        self.segments@.map_values(|s: InlineDiffSegment| s@)
    }
}

/// The mathematical content of a hunk header.
pub struct HeaderModel {
    pub raw: Seq<char>,
    pub old_start: u32,
    pub old_lines: u32,
    pub new_start: u32,
    pub new_lines: u32,
}

/// The mathematical content of a hunk: its header, its lines and its ranges.
pub struct HunkModel {
    pub header: HeaderModel,
    pub lines: Seq<DiffLine>,
    pub old_range: LineRange,
    pub new_range: LineRange,
    pub stageable: bool,
    pub context_lines: usize,
}

/// The mathematical content of a diff.
pub struct DiffModel {
    pub file_path: Seq<char>,
    pub context: DiffContext,
    pub hunks: Seq<HunkModel>,
    pub binary: bool,
}

impl View for HunkHeader {
    type V = HeaderModel;

    open spec fn view(&self) -> HeaderModel {
        HeaderModel {
            raw: self.raw@,
            old_start: self.old_start,
            old_lines: self.old_lines,
            new_start: self.new_start,
            new_lines: self.new_lines,
        }
    }
}

impl View for DiffHunk {
    type V = HunkModel;

    open spec fn view(&self) -> HunkModel {
        HunkModel {
            header: self.header@,
            lines: self.lines@,
            old_range: self.old_range,
            new_range: self.new_range,
            stageable: self.stageable,
            context_lines: self.context_lines,
        }
    }
}

impl View for Diff {
    type V = DiffModel;

    open spec fn view(&self) -> DiffModel {
        DiffModel {
            file_path: self.file_path@,
            context: self.context,
            hunks: self.hunks@.map_values(|h: DiffHunk| h@),
            binary: self.binary,
        }
    }
}

/// The text `@@ -<old start>,<old count> +<new start>,<new count> @@`.
pub open spec fn hunk_header_text(old_range: LineRange, new_range: LineRange) -> Seq<char> {
    "@@ -"@ + decimal(old_range.start as nat) + ","@ + decimal(old_range.count as nat) + " +"@
        + decimal(new_range.start as nat) + ","@ + decimal(new_range.count as nat) + " @@"@
}

/// The header that describes the two ranges.
pub open spec fn header_for_ranges(old_range: LineRange, new_range: LineRange) -> HeaderModel {
    HeaderModel {
        raw: hunk_header_text(old_range, new_range),
        old_start: old_range.start,
        old_lines: old_range.count,
        new_start: new_range.start,
        new_lines: new_range.count,
    }
}

/// One past the last line a range covers.
pub open spec fn range_end(r: LineRange) -> int {
    r.start + r.count
}

/// Two hunks are mergeable when the second starts no later than the first
/// ends, on both the old and the new side.
pub open spec fn mergeable(first: HunkModel, second: HunkModel) -> bool {
    &&& range_end(first.old_range) >= second.old_range.start
    &&& range_end(first.new_range) >= second.new_range.start
}

/// The hunk that covers both hunks: it starts where the first starts, ends
/// where the second ends, holds the lines of both, and is stageable when both are.
pub open spec fn merged_pair(first: HunkModel, second: HunkModel) -> HunkModel {
    let old_range = LineRange {
        start: first.old_range.start,
        count: (range_end(second.old_range) - first.old_range.start) as u32,
    };
    let new_range = LineRange {
        start: first.new_range.start,
        count: (range_end(second.new_range) - first.new_range.start) as u32,
    };
    HunkModel {
        header: header_for_ranges(old_range, new_range),
        lines: first.lines + second.lines,
        old_range,
        new_range,
        stageable: first.stageable && second.stageable,
        context_lines: first.context_lines,
    }
}

/// Merging left to right: `current` absorbs every following hunk it is
/// mergeable with; the first one it is not mergeable with starts a new hunk.
pub open spec fn merge_from(current: HunkModel, rest: Seq<HunkModel>) -> Seq<HunkModel>
    decreases rest.len(),
{
    if rest.len() == 0 {
        seq![current]
    } else if mergeable(current, rest[0]) {
        merge_from(merged_pair(current, rest[0]), rest.drop_first())
    } else {
        seq![current] + merge_from(rest[0], rest.drop_first())
    }
}

/// The hunks of a diff after adjacent hunks have been merged.
pub open spec fn merge_all(hunks: Seq<HunkModel>) -> Seq<HunkModel> {
    if hunks.len() == 0 {
        Seq::empty()
    } else {
        merge_from(hunks[0], hunks.drop_first())
    }
}

/// The hunks are in order and none of their ranges runs past `u32::MAX`:
/// what a diff produced by git satisfies.
pub open spec fn hunks_in_order(hunks: Seq<HunkModel>) -> bool {
    &&& forall|i: int| 0 <= i < hunks.len() ==> {
        &&& range_end(#[trigger] hunks[i].old_range) <= u32::MAX
        &&& range_end(hunks[i].new_range) <= u32::MAX
    }
    &&& forall|i: int, j: int| 0 <= i <= j < hunks.len() ==> {
        &&& #[trigger] hunks[i].old_range.start <= #[trigger] hunks[j].old_range.start
        &&& hunks[i].new_range.start <= hunks[j].new_range.start
    }
}

/// All the lines of the hunks, one hunk after the other.
pub open spec fn all_lines(hunks: Seq<HunkModel>) -> Seq<DiffLine>
    decreases hunks.len(),
{
    if hunks.len() == 0 {
        Seq::empty()
    } else {
        hunks[0].lines + all_lines(hunks.drop_first())
    }
}

/// No two neighbouring hunks are mergeable.
pub open spec fn no_mergeable_neighbours(hunks: Seq<HunkModel>) -> bool {
    forall|i: int| 0 <= i < hunks.len() - 1 ==> !mergeable(#[trigger] hunks[i], hunks[i + 1])
}


proof fn lemma_merge_from_lines(current: HunkModel, rest: Seq<HunkModel>)
    ensures
        all_lines(merge_from(current, rest)) == current.lines + all_lines(rest),
    decreases rest.len(),
{
    if rest.len() == 0 {
        assert(all_lines(seq![current]) =~= current.lines + all_lines(seq![current].drop_first()));
        assert(seq![current].drop_first() =~= Seq::<HunkModel>::empty());
        assert(current.lines + Seq::<DiffLine>::empty() =~= current.lines);
    } else if mergeable(current, rest[0]) {
        lemma_merge_from_lines(merged_pair(current, rest[0]), rest.drop_first());
        assert(current.lines + rest[0].lines + all_lines(rest.drop_first()) =~= current.lines + (
        rest[0].lines + all_lines(rest.drop_first())));
    } else {
        let tail = merge_from(rest[0], rest.drop_first());
        lemma_merge_from_lines(rest[0], rest.drop_first());
        let whole = seq![current] + tail;
        assert(whole[0] == current);
        assert(whole.drop_first() =~= tail);
    }
}

/// Merging hunks keeps every line, in the same order: the lines of the
/// merged hunks, one after the other, are the lines of the hunks they were made of.
pub proof fn lemma_merge_keeps_lines(hunks: Seq<HunkModel>)
    ensures
        all_lines(merge_all(hunks)) == all_lines(hunks),
{
    if hunks.len() > 0 {
        lemma_merge_from_lines(hunks[0], hunks.drop_first());
    }
}

proof fn lemma_merge_from_shape(current: HunkModel, rest: Seq<HunkModel>)
    ensures
        merge_from(current, rest).len() >= 1,
        merge_from(current, rest).len() <= rest.len() + 1,
        merge_from(current, rest)[0].old_range.start == current.old_range.start,
        merge_from(current, rest)[0].new_range.start == current.new_range.start,
        no_mergeable_neighbours(merge_from(current, rest)),
    decreases rest.len(),
{
    if rest.len() == 0 {
    } else if mergeable(current, rest[0]) {
        lemma_merge_from_shape(merged_pair(current, rest[0]), rest.drop_first());
    } else {
        let tail = merge_from(rest[0], rest.drop_first());
        lemma_merge_from_shape(rest[0], rest.drop_first());
        let whole = seq![current] + tail;
        assert forall|i: int| 0 <= i < whole.len() - 1 implies !mergeable(#[trigger] whole[i], whole[i + 1]) by {
            if i > 0 {
                assert(whole[i] == tail[i - 1]);
                assert(whole[i + 1] == tail[i]);
            } else {
                assert(whole[1] == tail[0]);
            }
        }
    }
}

/// After merging, no two neighbouring hunks could be merged any further,
/// and there are never more hunks than before.
pub proof fn lemma_merge_leaves_nothing_to_merge(hunks: Seq<HunkModel>)
    ensures
        no_mergeable_neighbours(merge_all(hunks)),
        merge_all(hunks).len() <= hunks.len(),
{
    if hunks.len() > 0 {
        lemma_merge_from_shape(hunks[0], hunks.drop_first());
    }
}

proof fn lemma_merge_from_fixed(hunks: Seq<HunkModel>)
    requires
        hunks.len() > 0,
        no_mergeable_neighbours(hunks),
    ensures
        merge_from(hunks[0], hunks.drop_first()) == hunks,
    decreases hunks.len(),
{
    if hunks.len() == 1 {
        assert(hunks =~= seq![hunks[0]]);
    } else {
        let rest = hunks.drop_first();
        assert(!mergeable(hunks[0], hunks[1]));
        assert forall|i: int| 0 <= i < rest.len() - 1 implies !mergeable(#[trigger] rest[i], rest[i + 1]) by {
            assert(!mergeable(hunks[i + 1], hunks[i + 2]));
        }
        lemma_merge_from_fixed(rest);
        assert(seq![hunks[0]] + rest =~= hunks);
    }
}

/// Merging is idempotent: merging hunks that were already merged changes nothing.
pub proof fn lemma_merge_idempotent(hunks: Seq<HunkModel>)
    ensures
        merge_all(merge_all(hunks)) == merge_all(hunks),
{
    lemma_merge_leaves_nothing_to_merge(hunks);
    let once = merge_all(hunks);
    if once.len() > 0 {
        lemma_merge_from_fixed(once);
    }
}

/// Two hunks in order are merged exactly when the second starts no later
/// than the first ends, on the old side and on the new side: a hunk that ends at
/// line `n` and one that starts at line `n + 1` or later stay apart, as they
/// were. Merged, they make one hunk from the first's start to the second's
/// end that holds the lines of both.
pub proof fn lemma_two_hunks_merge_only_when_touching(first: HunkModel, second: HunkModel)
    requires
        hunks_in_order(seq![first, second]),
    ensures
        ({
            let touching = second.old_range.start <= first.old_range.start + first.old_range.count
                && second.new_range.start <= first.new_range.start + first.new_range.count;
            let merged = merge_all(seq![first, second]);
            &&& !touching ==> merged == seq![first, second]
            &&& touching ==> merged.len() == 1 && merged[0].lines == first.lines + second.lines
                && merged[0].old_range.start == first.old_range.start
                && merged[0].new_range.start == first.new_range.start
                && merged[0].old_range.start + merged[0].old_range.count == second.old_range.start
                + second.old_range.count
                && merged[0].new_range.start + merged[0].new_range.count == second.new_range.start
                + second.new_range.count
        }),
{
    let hunks = seq![first, second];
    assert(hunks[0] == first && hunks[1] == second);
    assert(range_end(second.old_range) <= u32::MAX && range_end(second.new_range) <= u32::MAX);
    assert(first.old_range.start <= second.old_range.start && first.new_range.start <= second.new_range.start);
    assert(hunks.drop_first() =~= seq![second]);
    assert(seq![second].drop_first() =~= Seq::<HunkModel>::empty());
    let merged = merge_all(hunks);
    assert(merged == merge_from(first, seq![second]));
    if mergeable(first, second) {
        assert(merged == merge_from(merged_pair(first, second), Seq::<HunkModel>::empty()));
    } else {
        assert(merged == seq![first] + merge_from(second, Seq::<HunkModel>::empty()));
        assert(merged =~= seq![first, second]);
    }
}

/// Hunks each separated from the next by at least one line, on the old or
/// on the new side, are left as they are by merging.
pub proof fn lemma_separated_hunks_stay_apart(hunks: Seq<HunkModel>)
    requires
        forall|i: int|
            0 <= i < hunks.len() - 1 ==> (#[trigger] hunks[i]).old_range.start + hunks[i].old_range.count
                < hunks[i + 1].old_range.start || hunks[i].new_range.start + hunks[i].new_range.count
                < hunks[i + 1].new_range.start,
    ensures
        merge_all(hunks) == hunks,
{
    if hunks.len() > 0 {
        assert(no_mergeable_neighbours(hunks));
        lemma_merge_from_fixed(hunks);
    } else {
        assert(hunks =~= Seq::<HunkModel>::empty());
    }
}

/// Whether a diff's hunks are in order with no range past `u32::MAX`, so
/// that they can be merged.
pub fn hunks_are_ordered(hunks: &Vec<DiffHunk>) -> (ordered: bool)
    ensures
        ordered == hunks_in_order(hunks@.map_values(|h: DiffHunk| h@)),
{
    let ghost models = hunks@.map_values(|h: DiffHunk| h@);
    let n = hunks.len();
    let mut i: usize = 0;
    while i < n
        invariant
            n == hunks@.len(),
            models == hunks@.map_values(|h: DiffHunk| h@),
            i <= n,
            hunks_in_order(models.take(i as int)),
        decreases n - i,
    {
        let h = &hunks[i];
        let old_end: u64 = h.old_range.start as u64 + h.old_range.count as u64;
        let new_end: u64 = h.new_range.start as u64 + h.new_range.count as u64;
        if old_end > 0xffff_ffffu64 || new_end > 0xffff_ffffu64 {
            assert(models[i as int] == h@);
            assert(!(range_end(models[i as int].old_range) <= u32::MAX) || !(range_end(models[i as int].new_range)
                <= u32::MAX));
            return false;
        }
        if i > 0 {
            let p = &hunks[i - 1];
            if p.old_range.start > h.old_range.start || p.new_range.start > h.new_range.start {
                assert(models[i - 1] == p@ && models[i as int] == h@);
                assert(!(models[i - 1].old_range.start <= models[i as int].old_range.start) || !(
                models[i - 1].new_range.start <= models[i as int].new_range.start));
                return false;
            }
        }
        proof {
            let before = models.take(i as int);
            let after = models.take(i + 1);
            assert forall|a: int, b: int| 0 <= a <= b < after.len() implies {
                &&& #[trigger] after[a].old_range.start <= #[trigger] after[b].old_range.start
                &&& after[a].new_range.start <= after[b].new_range.start
            } by {
                if b < i {
                    assert(before[a] == after[a] && before[b] == after[b]);
                } else if a < b {
                    assert(b == i);
                    if a < i - 1 {
                        assert(before[a] == after[a] && before[i - 1] == after[i - 1]);
                        assert(before[a].old_range.start <= before[i - 1].old_range.start);
                    }
                }
            }
            assert forall|a: int| 0 <= a < after.len() implies {
                &&& range_end(#[trigger] after[a].old_range) <= u32::MAX
                &&& range_end(after[a].new_range) <= u32::MAX
            } by {
                if a < i {
                    assert(before[a] == after[a]);
                }
            }
        }
        i += 1;
    }
    assert(models.take(n as int) =~= models);
    true
}

/// Merges each run of adjacent or overlapping hunks into one hunk.
pub fn merge_adjacent_hunks(diff: Diff) -> (result: Diff)
    requires
        hunks_in_order(diff@.hunks),
    ensures
        result@.file_path == diff@.file_path,
        result@.context == diff@.context,
        result@.binary == diff@.binary,
        result@.hunks == merge_all(diff@.hunks),
{
    if diff.hunks.len() == 0 {
        return diff;
    }
    let Diff { file_path, context, hunks, binary } = diff;
    let ghost input = hunks@.map_values(|h: DiffHunk| h@);
    let mut merged_hunks: Vec<DiffHunk> = Vec::new();
    let mut current_hunk: Option<DiffHunk> = None;

    for hunk in it: hunks
        invariant
            input == it.seq().map_values(|h: DiffHunk| h@),
            input.len() > 0,
            hunks_in_order(input),
            it.index() == 0 ==> current_hunk is None && merged_hunks@.len() == 0,
            it.index() > 0 ==> current_hunk is Some && {
                let c = current_hunk->0@;
                &&& merge_all(input) == merged_hunks@.map_values(|h: DiffHunk| h@) + merge_from(
                    c,
                    input.skip(it.index() as int),
                )
                &&& c.old_range.start <= input[it.index() - 1].old_range.start
                &&& c.new_range.start <= input[it.index() - 1].new_range.start
                &&& range_end(c.old_range) <= u32::MAX
                &&& range_end(c.new_range) <= u32::MAX
            },
    {
        let ghost i = it.index() as int;
        let ghost before = merged_hunks@.map_values(|h: DiffHunk| h@);
        assert(input[i] == hunk@);
        assert(input.skip(i).drop_first() =~= input.skip(i + 1));
        assert(input.skip(i)[0] == input[i]);
        if current_hunk.is_some() {
            let mut curr = current_hunk.unwrap();
            if hunks_are_mergeable(&curr, &hunk) {
                merge_hunks(&mut curr, hunk);
                current_hunk = Some(curr);
            } else {
                merged_hunks.push(curr);
                proof {
                    assert(merged_hunks@.map_values(|h: DiffHunk| h@) =~= before.push(curr@));
                    assert(before + (seq![curr@] + merge_from(input[i], input.skip(i + 1)))
                        =~= before.push(curr@) + merge_from(input[i], input.skip(i + 1)));
                }
                current_hunk = Some(hunk);
            }
        } else {
            proof {
                assert(input.drop_first() =~= input.skip(1));
                assert(merged_hunks@.map_values(|h: DiffHunk| h@) =~= Seq::<HunkModel>::empty());
            }
            current_hunk = Some(hunk);
        }
    }

    if current_hunk.is_some() {
        let last = current_hunk.unwrap();
        let ghost before = merged_hunks@.map_values(|h: DiffHunk| h@);
        merged_hunks.push(last);
        proof {
            assert(input.skip(input.len() as int) =~= Seq::<HunkModel>::empty());
            assert(merged_hunks@.map_values(|h: DiffHunk| h@) =~= before + seq![last@]);
        }
    }

    Diff { file_path, context, hunks: merged_hunks, binary }
}

fn hunks_are_mergeable(hunk1: &DiffHunk, hunk2: &DiffHunk) -> (result: bool)
    requires
        range_end(hunk1.old_range) <= u32::MAX,
        range_end(hunk1.new_range) <= u32::MAX,
    ensures
        result == mergeable(hunk1@, hunk2@),
{
    let old_end = hunk1.old_range.start + hunk1.old_range.count;
    let new_end = hunk1.new_range.start + hunk1.new_range.count;

    let old_contiguous = old_end >= hunk2.old_range.start;
    let new_contiguous = new_end >= hunk2.new_range.start;

    old_contiguous && new_contiguous
}

fn merge_hunks(hunk1: &mut DiffHunk, hunk2: DiffHunk)
    requires
        old(hunk1).old_range.start <= hunk2.old_range.start,
        old(hunk1).new_range.start <= hunk2.new_range.start,
        range_end(hunk2.old_range) <= u32::MAX,
        range_end(hunk2.new_range) <= u32::MAX,
    ensures
        final(hunk1)@ == merged_pair(old(hunk1)@, hunk2@),
{
    let mut hunk2 = hunk2;
    hunk1.old_range.count = (hunk2.old_range.start + hunk2.old_range.count) - hunk1.old_range.start;
    hunk1.new_range.count = (hunk2.new_range.start + hunk2.new_range.count) - hunk1.new_range.start;

    hunk1.lines.append(&mut hunk2.lines);

    hunk1.header = generate_hunk_header(&hunk1.old_range, &hunk1.new_range);

    hunk1.stageable = hunk1.stageable && hunk2.stageable;
}

/// The header that describes the two ranges, with its text.
pub fn generate_hunk_header(old_range: &LineRange, new_range: &LineRange) -> (header: HunkHeader)
    ensures
        header@ == header_for_ranges(*old_range, *new_range),
{
    let mut raw = String::new();
    push_str(&mut raw, "@@ -");
    push_decimal(&mut raw, old_range.start as u64);
    push_str(&mut raw, ",");
    push_decimal(&mut raw, old_range.count as u64);
    push_str(&mut raw, " +");
    push_decimal(&mut raw, new_range.start as u64);
    push_str(&mut raw, ",");
    push_decimal(&mut raw, new_range.count as u64);
    push_str(&mut raw, " @@");
    assert(raw@ =~= hunk_header_text(*old_range, *new_range));

    HunkHeader {
        raw,
        old_start: old_range.start,
        old_lines: old_range.count,
        new_start: new_range.start,
        new_lines: new_range.count,
    }
}

} // verus!
