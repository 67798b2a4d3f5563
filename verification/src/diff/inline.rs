use vstd::prelude::*;
use crate::diff::{Diff, DiffHunk, DiffLine, InlineChange, InlineDiff, InlineDiffSegment, LineType};
use similar::{ChangeTag, TextDiff};

verus! {

/// How a word of a word-level diff relates the two texts.
#[derive(Debug, Clone, Copy, PartialEq, Eq, Structural)]
pub enum WordChangeTag {
    /// The word is in both texts.
    Equal,
    /// The word is only in the old text.
    Delete,
    /// The word is only in the updated text.
    Insert,
}

/// The changes that `similar`'s word diff (`TextDiff::configure().diff_words`)
/// reports between two texts, each with its tag and the text of its word.
pub uninterp spec fn word_diff_changes(before: Seq<char>, updated: Seq<char>) -> Seq<(WordChangeTag, Seq<char>)>;

/// The texts of the changes that belong to one side, concatenated: the
/// old side keeps `Equal` and `Delete`, the updated side `Equal` and `Insert`.
pub open spec fn side_text(changes: Seq<(WordChangeTag, Seq<char>)>, dropped: WordChangeTag) -> Seq<char>
    decreases changes.len(),
{
    if changes.len() == 0 {
        Seq::empty()
    } else {
        let rest = side_text(changes.drop_first(), dropped);
        if changes[0].0 == dropped { rest } else { changes[0].1 + rest }
    }
}

/// The segments of one side: every change of that side, in order, marked
/// `Unchanged` when the word is in both texts and `changed` otherwise.
pub open spec fn side_segments(
    changes: Seq<(WordChangeTag, Seq<char>)>,
    dropped: WordChangeTag,
    changed: InlineChange,
) -> Seq<(Seq<char>, InlineChange)>
    decreases changes.len(),
{
    if changes.len() == 0 {
        Seq::empty()
    } else {
        let rest = side_segments(changes.drop_first(), dropped, changed);
        if changes[0].0 == dropped {
            rest
        } else if changes[0].0 == WordChangeTag::Equal {
            seq![(changes[0].1, InlineChange::Unchanged)] + rest
        } else {
            seq![(changes[0].1, changed)] + rest
        }
    }
}

/// The segments of the old text of a word diff.
pub open spec fn old_segments(before: Seq<char>, updated: Seq<char>) -> Seq<(Seq<char>, InlineChange)> {
    side_segments(word_diff_changes(before, updated), WordChangeTag::Insert, InlineChange::Removed)
}

/// The segments of the updated text of a word diff.
pub open spec fn new_segments(before: Seq<char>, updated: Seq<char>) -> Seq<(Seq<char>, InlineChange)> {
    side_segments(word_diff_changes(before, updated), WordChangeTag::Delete, InlineChange::Added)
}

/// The text of a list of segments, one after the other.
pub open spec fn segments_text(segments: Seq<(Seq<char>, InlineChange)>) -> Seq<char>
    decreases segments.len(),
{
    if segments.len() == 0 {
        Seq::empty()
    } else {
        segments[0].0 + segments_text(segments.drop_first())
    }
}

/// Every segment is marked `change`.
pub open spec fn all_marked(segments: Seq<(Seq<char>, InlineChange)>, change: InlineChange) -> bool {
    forall|i: int| 0 <= i < segments.len() ==> (#[trigger] segments[i]).1 == change
}

proof fn lemma_side_segments_text(
    changes: Seq<(WordChangeTag, Seq<char>)>,
    dropped: WordChangeTag,
    changed: InlineChange,
)
    ensures
        segments_text(side_segments(changes, dropped, changed)) == side_text(changes, dropped),
    decreases changes.len(),
{
    if changes.len() > 0 {
        lemma_side_segments_text(changes.drop_first(), dropped, changed);
        let rest = side_segments(changes.drop_first(), dropped, changed);
        let head = if changes[0].0 == WordChangeTag::Equal { InlineChange::Unchanged } else { changed };
        let whole = seq![(changes[0].1, head)] + rest;
        assert(whole.drop_first() =~= rest);
    }
}

proof fn lemma_other_side_empty(
    changes: Seq<(WordChangeTag, Seq<char>)>,
    dropped: WordChangeTag,
    other: WordChangeTag,
    changed: InlineChange,
)
    requires
        side_text(changes, other) == Seq::<char>::empty(),
        forall|i: int| 0 <= i < changes.len() ==> (#[trigger] changes[i]).1.len() > 0,
        dropped != other,
        dropped != WordChangeTag::Equal,
        other != WordChangeTag::Equal,
    ensures
        all_marked(side_segments(changes, dropped, changed), changed),
    decreases changes.len(),
{
    if changes.len() > 0 {
        let rest = changes.drop_first();
        assert forall|i: int| 0 <= i < rest.len() implies (#[trigger] rest[i]).1.len() > 0 by {
            assert(rest[i] == changes[i + 1]);
        }
        if changes[0].0 != other {
            assert((changes[0].1 + side_text(rest, other)).len() > 0);
        }
        lemma_other_side_empty(rest, dropped, other, changed);
        let tail = side_segments(rest, dropped, changed);
        if changes[0].0 != dropped {
            let whole = seq![(changes[0].1, changed)] + tail;
            assert forall|i: int| 0 <= i < whole.len() implies (#[trigger] whole[i]).1 == changed by {
                if i > 0 {
                    assert(whole[i] == tail[i - 1]);
                }
            }
        }
    }
}

/// Runs `similar`'s word diff between two texts and lists its changes
/// (`TextDiff::configure().diff_words`, then every change of every op).
/// Besides naming the result, it states what the crate's tokenizer and diff
/// ops guarantee: every word is non-empty, the `Equal` and `Delete` words
/// spell the old text, and the `Equal` and `Insert` words spell the
/// updated text. Which words are matched is left unsaid.
#[verifier::external_body]
fn diff_words(before: &str, updated: &str) -> (changes: Vec<(WordChangeTag, String)>)
    ensures
        changes@.map_values(|c: (WordChangeTag, String)| (c.0, c.1@)) == word_diff_changes(before@, updated@),
        side_text(changes@.map_values(|c: (WordChangeTag, String)| (c.0, c.1@)), WordChangeTag::Insert) == before@,
        side_text(changes@.map_values(|c: (WordChangeTag, String)| (c.0, c.1@)), WordChangeTag::Delete) == updated@,
        forall|i: int| 0 <= i < changes@.len() ==> (#[trigger] changes@[i]).1@.len() > 0,
{
    let diff = TextDiff::configure().diff_words(before, updated);
    diff.iter_all_changes()
        .map(|change| {
            let tag = match change.tag() {
                ChangeTag::Equal => WordChangeTag::Equal,
                ChangeTag::Delete => WordChangeTag::Delete,
                ChangeTag::Insert => WordChangeTag::Insert,
            };
            (tag, change.value().to_string())
        })
        .collect()
}

/// The segments of both texts of a word diff: the old text's words
/// marked `Unchanged` or `Removed`, the updated text's `Unchanged` or `Added`.
pub fn build_inline_segments(before: &str, updated: &str) -> (result: (
    Vec<InlineDiffSegment>,
    Vec<InlineDiffSegment>,
))
    ensures
        result.0@.map_values(|s: InlineDiffSegment| s@) == old_segments(before@, updated@),
        result.1@.map_values(|s: InlineDiffSegment| s@) == new_segments(before@, updated@),
        segments_text(old_segments(before@, updated@)) == before@,
        segments_text(new_segments(before@, updated@)) == updated@,
        before@.len() == 0 ==> all_marked(new_segments(before@, updated@), InlineChange::Added),
        updated@.len() == 0 ==> all_marked(old_segments(before@, updated@), InlineChange::Removed),
{
    let changes = diff_words(before, updated);
    let ghost all = word_diff_changes(before@, updated@);
    proof {
        lemma_side_segments_text(all, WordChangeTag::Insert, InlineChange::Removed);
        lemma_side_segments_text(all, WordChangeTag::Delete, InlineChange::Added);
        assert forall|i: int| 0 <= i < all.len() implies (#[trigger] all[i]).1.len() > 0 by {
            assert(all[i].1 == changes@[i].1@);
        }
        if before@.len() == 0 {
            assert(before@ =~= Seq::<char>::empty());
            lemma_other_side_empty(all, WordChangeTag::Delete, WordChangeTag::Insert, InlineChange::Added);
        }
        if updated@.len() == 0 {
            assert(updated@ =~= Seq::<char>::empty());
            lemma_other_side_empty(all, WordChangeTag::Insert, WordChangeTag::Delete, InlineChange::Removed);
        }
    }
    let mut old_side_segments: Vec<InlineDiffSegment> = Vec::new();
    let mut updated_segments: Vec<InlineDiffSegment> = Vec::new();
    let n = changes.len();
    let mut i: usize = 0;
    proof {
        assert(all.skip(0) =~= all);
        assert(old_side_segments@.map_values(|s: InlineDiffSegment| s@) + side_segments(all, WordChangeTag::Insert,
            InlineChange::Removed) =~= side_segments(all, WordChangeTag::Insert, InlineChange::Removed));
        assert(updated_segments@.map_values(|s: InlineDiffSegment| s@) + side_segments(all, WordChangeTag::Delete,
            InlineChange::Added) =~= side_segments(all, WordChangeTag::Delete, InlineChange::Added));
    }
    while i < n
        invariant
            n == changes@.len(),
            all == changes@.map_values(|c: (WordChangeTag, String)| (c.0, c.1@)),
            i <= n,
            old_side_segments@.map_values(|s: InlineDiffSegment| s@) + side_segments(
                all.skip(i as int),
                WordChangeTag::Insert,
                InlineChange::Removed,
            ) == side_segments(all, WordChangeTag::Insert, InlineChange::Removed),
            updated_segments@.map_values(|s: InlineDiffSegment| s@) + side_segments(
                all.skip(i as int),
                WordChangeTag::Delete,
                InlineChange::Added,
            ) == side_segments(all, WordChangeTag::Delete, InlineChange::Added),
        decreases n - i,
    {
        let tag = changes[i].0;
        let ghost before_old = old_side_segments@.map_values(|s: InlineDiffSegment| s@);
        let ghost before_new = updated_segments@.map_values(|s: InlineDiffSegment| s@);
        proof {
            assert(all.skip(i as int).drop_first() =~= all.skip(i + 1));
            assert(all.skip(i as int)[0] == all[i as int]);
        }
        match tag {
            WordChangeTag::Equal => {
                old_side_segments.push(
                    InlineDiffSegment { content: changes[i].1.clone(), change: InlineChange::Unchanged },
                );
                updated_segments.push(
                    InlineDiffSegment { content: changes[i].1.clone(), change: InlineChange::Unchanged },
                );
                proof {
                    assert(old_side_segments@.map_values(|s: InlineDiffSegment| s@) =~= before_old.push(
                        (all[i as int].1, InlineChange::Unchanged),
                    ));
                    assert(updated_segments@.map_values(|s: InlineDiffSegment| s@) =~= before_new.push(
                        (all[i as int].1, InlineChange::Unchanged),
                    ));
                }
            },
            WordChangeTag::Delete => {
                old_side_segments.push(
                    InlineDiffSegment { content: changes[i].1.clone(), change: InlineChange::Removed },
                );
                proof {
                    assert(old_side_segments@.map_values(|s: InlineDiffSegment| s@) =~= before_old.push(
                        (all[i as int].1, InlineChange::Removed),
                    ));
                }
            },
            WordChangeTag::Insert => {
                updated_segments.push(
                    InlineDiffSegment { content: changes[i].1.clone(), change: InlineChange::Added },
                );
                proof {
                    assert(updated_segments@.map_values(|s: InlineDiffSegment| s@) =~= before_new.push(
                        (all[i as int].1, InlineChange::Added),
                    ));
                }
            },
        }
        proof {
            let o = side_segments(all.skip(i + 1), WordChangeTag::Insert, InlineChange::Removed);
            let u = side_segments(all.skip(i + 1), WordChangeTag::Delete, InlineChange::Added);
            assert(before_old + (seq![(all[i as int].1, InlineChange::Unchanged)] + o) =~= before_old.push(
                (all[i as int].1, InlineChange::Unchanged)) + o);
            assert(before_old + (seq![(all[i as int].1, InlineChange::Removed)] + o) =~= before_old.push(
                (all[i as int].1, InlineChange::Removed)) + o);
            assert(before_new + (seq![(all[i as int].1, InlineChange::Unchanged)] + u) =~= before_new.push(
                (all[i as int].1, InlineChange::Unchanged)) + u);
            assert(before_new + (seq![(all[i as int].1, InlineChange::Added)] + u) =~= before_new.push(
                (all[i as int].1, InlineChange::Added)) + u);
        }
        i += 1;
    }
    proof {
        assert(all.skip(n as int) =~= Seq::<(WordChangeTag, Seq<char>)>::empty());
        assert(old_side_segments@.map_values(|s: InlineDiffSegment| s@) =~= old_side_segments@.map_values(
            |s: InlineDiffSegment| s@) + Seq::<(Seq<char>, InlineChange)>::empty());
        assert(updated_segments@.map_values(|s: InlineDiffSegment| s@) =~= updated_segments@.map_values(
            |s: InlineDiffSegment| s@) + Seq::<(Seq<char>, InlineChange)>::empty());
    }
    (old_side_segments, updated_segments)
}

} // verus!

verus! {

/// The first index of the run of lines of type `t` that reaches up to line `j`.
pub open spec fn run_start(lines: Seq<DiffLine>, j: int, t: LineType) -> int
    decreases j,
{
    if 0 < j && j <= lines.len() && lines[j - 1].line_type == t {
        run_start(lines, j - 1, t)
    } else {
        j
    }
}

/// The first index at or after `j` whose line is not of type `t`.
pub open spec fn run_end(lines: Seq<DiffLine>, j: int, t: LineType) -> int
    decreases lines.len() - j,
{
    if 0 <= j < lines.len() && lines[j].line_type == t {
        run_end(lines, j + 1, t)
    } else {
        j
    }
}

/// The line that line `j` is compared with: in each run of deletions
/// followed by a run of additions, the deletion and the addition at the same
/// offset are partners. A deletion or addition without a partner gets `None`,
/// as does any other line.
pub open spec fn inline_partner(lines: Seq<DiffLine>, j: int) -> Option<int> {
    if lines[j].line_type == LineType::Deletion {
        let deletion_start = run_start(lines, j, LineType::Deletion);
        let deletion_end = run_end(lines, j, LineType::Deletion);
        let addition_end = run_end(lines, deletion_end, LineType::Addition);
        let partner = deletion_end + (j - deletion_start);
        if partner < addition_end { Some(partner) } else { None }
    } else if lines[j].line_type == LineType::Addition {
        let addition_start = run_start(lines, j, LineType::Addition);
        let deletion_start = run_start(lines, addition_start - 1, LineType::Deletion);
        if addition_start > 0 && lines[addition_start - 1].line_type == LineType::Deletion && j
            - addition_start < addition_start - deletion_start {
            Some(deletion_start + (j - addition_start))
        } else {
            None
        }
    } else {
        None
    }
}

/// The text line `j` is compared with: its partner's, or the empty text.
pub open spec fn partner_text(lines: Seq<DiffLine>, j: int) -> Seq<char> {
    match inline_partner(lines, j) {
        Some(p) => lines[p].content@,
        None => Seq::empty(),
    }
}

/// The inline segments that line `j` gets, or `None` for lines that get
/// none: a deletion gets the old side of its word diff against its
/// partner, an addition the updated side.
pub open spec fn expected_inline(lines: Seq<DiffLine>, j: int) -> Option<Seq<(Seq<char>, InlineChange)>> {
    if lines[j].line_type == LineType::Deletion {
        Some(old_segments(lines[j].content@, partner_text(lines, j)))
    } else if lines[j].line_type == LineType::Addition {
        Some(new_segments(partner_text(lines, j), lines[j].content@))
    } else {
        None
    }
}

/// What holds of the segments line `j` gets: they spell the line, and a line
/// without a partner has all its words marked as added or removed.
pub open spec fn inline_spells_line(lines: Seq<DiffLine>, j: int) -> bool {
    match expected_inline(lines, j) {
        Some(segments) => {
            &&& segments_text(segments) == lines[j].content@
            &&& inline_partner(lines, j) is None && lines[j].line_type == LineType::Addition ==> all_marked(
                segments,
                InlineChange::Added,
            )
            &&& inline_partner(lines, j) is None && lines[j].line_type == LineType::Deletion ==> all_marked(
                segments,
                InlineChange::Removed,
            )
        },
        None => true,
    }
}

/// `after` is `before` with its inline segments set as `expected` says
/// (and left alone when `expected` is `None`).
pub open spec fn line_with_inline(
    before: DiffLine,
    after: DiffLine,
    expected: Option<Seq<(Seq<char>, InlineChange)>>,
) -> bool {
    &&& after.content == before.content
    &&& after.line_type == before.line_type
    &&& after.old_line_no == before.old_line_no
    &&& after.new_line_no == before.new_line_no
    &&& match expected {
        Some(segments) => after.inline_diff matches Some(d) && d@ == segments,
        None => after.inline_diff == before.inline_diff,
    }
}

/// The hunk `after` is `before` with the inline segments of every line set.
pub open spec fn hunk_with_inline(before: DiffHunk, after: DiffHunk) -> bool {
    &&& after.header == before.header
    &&& after.old_range == before.old_range
    &&& after.new_range == before.new_range
    &&& after.stageable == before.stageable
    &&& after.context_lines == before.context_lines
    &&& after.lines@.len() == before.lines@.len()
    &&& forall|j: int| 0 <= j < before.lines@.len() ==> line_with_inline(
        before.lines@[j],
        #[trigger] after.lines@[j],
        expected_inline(before.lines@, j),
    )
}

spec fn at_run_boundary(lines: Seq<DiffLine>, i: int) -> bool {
    i == 0 || i >= lines.len() || {
        let p = lines[i - 1].line_type;
        let q = lines[i].line_type;
        &&& !(p == q && (q == LineType::Addition || q == LineType::Deletion))
        &&& !(p == LineType::Deletion && q == LineType::Addition)
    }
}

proof fn lemma_run_start(lines: Seq<DiffLine>, s: int, j: int, t: LineType)
    requires
        0 <= s <= j < lines.len(),
        forall|k: int| s <= k <= j ==> #[trigger] lines[k].line_type == t,
        s == 0 || lines[s - 1].line_type != t,
    ensures
        run_start(lines, j, t) == s,
    decreases j - s,
{
    if j > s {
        lemma_run_start(lines, s, j - 1, t);
    }
}

proof fn lemma_run_end(lines: Seq<DiffLine>, j: int, e: int, t: LineType)
    requires
        0 <= j <= e <= lines.len(),
        forall|k: int| j <= k < e ==> #[trigger] lines[k].line_type == t,
        e == lines.len() || lines[e].line_type != t,
    ensures
        run_end(lines, j, t) == e,
    decreases e - j,
{
    if j < e {
        lemma_run_end(lines, j + 1, e, t);
    }
}

proof fn lemma_empty_literal()
    ensures
        ""@ == Seq::<char>::empty(),
{
    reveal_strlit("");
    assert(""@ =~= Seq::<char>::empty());
}

fn set_inline(lines: &mut Vec<DiffLine>, k: usize, segments: Vec<InlineDiffSegment>)
    requires
        k < old(lines)@.len(),
    ensures
        final(lines)@.len() == old(lines)@.len(),
        forall|j: int| 0 <= j < old(lines)@.len() && j != k ==> #[trigger] final(lines)@[j] == old(lines)@[j],
        line_with_inline(
            old(lines)@[k as int],
            final(lines)@[k as int],
            Some(segments@.map_values(|s: InlineDiffSegment| s@)),
        ),
{
    lines[k].inline_diff = Some(InlineDiff { segments });
}

/// Compute inline word-level diffs for the paired deletion/addition lines of one hunk.
fn compute_inline_for_lines(lines: &mut Vec<DiffLine>)
    ensures
        final(lines)@.len() == old(lines)@.len(),
        forall|j: int| 0 <= j < old(lines)@.len() ==> line_with_inline(
            old(lines)@[j],
            #[trigger] final(lines)@[j],
            expected_inline(old(lines)@, j),
        ),
        forall|j: int| 0 <= j < old(lines)@.len() ==> #[trigger] inline_spells_line(old(lines)@, j),
{
    let ghost orig = lines@;
    let len = lines.len();
    let mut idx: usize = 0;
    while idx < len
        invariant
            len == orig.len(),
            lines@.len() == len,
            idx <= len,
            at_run_boundary(orig, idx as int),
            forall|j: int| 0 <= j < idx ==> line_with_inline(
                orig[j],
                #[trigger] lines@[j],
                expected_inline(orig, j),
            ),
            forall|j: int| 0 <= j < idx ==> #[trigger] inline_spells_line(orig, j),
            forall|j: int| idx <= j < len ==> #[trigger] lines@[j] == orig[j],
        decreases len - idx,
    {
        if lines[idx].line_type == LineType::Addition {
            let addition_start = idx;
            while idx < len && lines[idx].line_type == LineType::Addition
                invariant
                    len == orig.len(),
                    lines@.len() == len,
                    addition_start <= idx <= len,
                    forall|j: int| addition_start <= j < len ==> #[trigger] lines@[j] == orig[j],
                    forall|k: int| addition_start <= k < idx ==> #[trigger] orig[k].line_type
                        == LineType::Addition,
                decreases len - idx,
            {
                idx += 1;
            }
            let mut k: usize = addition_start;
            while k < idx
                invariant
                    len == orig.len(),
                    lines@.len() == len,
                    addition_start <= k <= idx <= len,
                    addition_start < len,
                    at_run_boundary(orig, addition_start as int),
                    orig[addition_start as int].line_type == LineType::Addition,
                    forall|j: int| 0 <= j < k ==> line_with_inline(
                        orig[j],
                        #[trigger] lines@[j],
                        expected_inline(orig, j),
                    ),
                    forall|j: int| k <= j < len ==> #[trigger] lines@[j] == orig[j],
                    forall|j: int| 0 <= j < k ==> #[trigger] inline_spells_line(orig, j),
                    forall|j: int| addition_start <= j < idx ==> #[trigger] orig[j].line_type
                        == LineType::Addition,
                    idx == len || orig[idx as int].line_type != LineType::Addition,
                decreases idx - k,
            {
                let (_, new_segments) = build_inline_segments("", lines[k].content.as_str());
                proof {
                    lemma_empty_literal();
                    lemma_run_start(orig, addition_start as int, k as int, LineType::Addition);
                    assert(lines@[k as int] == orig[k as int]);
                }
                set_inline(lines, k, new_segments);
                k += 1;
            }
        } else if lines[idx].line_type != LineType::Deletion {
            idx += 1;
        } else {
            let deletion_start = idx;
            while idx < len && lines[idx].line_type == LineType::Deletion
                invariant
                    len == orig.len(),
                    lines@.len() == len,
                    deletion_start <= idx <= len,
                    forall|j: int| deletion_start <= j < len ==> #[trigger] lines@[j] == orig[j],
                    forall|k: int| deletion_start <= k < idx ==> #[trigger] orig[k].line_type
                        == LineType::Deletion,
                decreases len - idx,
            {
                idx += 1;
            }
            let addition_start = idx;
            while idx < len && lines[idx].line_type == LineType::Addition
                invariant
                    len == orig.len(),
                    lines@.len() == len,
                    deletion_start <= addition_start <= idx <= len,
                    forall|j: int| deletion_start <= j < len ==> #[trigger] lines@[j] == orig[j],
                    forall|k: int| addition_start <= k < idx ==> #[trigger] orig[k].line_type
                        == LineType::Addition,
                decreases len - idx,
            {
                idx += 1;
            }
            let deletion_count = addition_start - deletion_start;
            let addition_count = idx - addition_start;
            let pair_count = if deletion_count < addition_count { deletion_count } else { addition_count };
            let addition_end = idx;
            proof {
                lemma_run_end(orig, addition_start as int, addition_end as int, LineType::Addition);
            }
            let mut offset: usize = 0;
            while offset < deletion_count
                invariant
                    len == orig.len(),
                    lines@.len() == len,
                    deletion_start < addition_start <= addition_end <= len,
                    deletion_count == addition_start - deletion_start,
                    addition_count == addition_end - addition_start,
                    offset <= deletion_count,
                    at_run_boundary(orig, deletion_start as int),
                    forall|j: int| deletion_start <= j < addition_start ==> #[trigger] orig[j].line_type
                        == LineType::Deletion,
                    addition_start == len || orig[addition_start as int].line_type != LineType::Deletion,
                    run_end(orig, addition_start as int, LineType::Addition) == addition_end,
                    forall|j: int| 0 <= j < deletion_start ==> line_with_inline(
                        orig[j],
                        #[trigger] lines@[j],
                        expected_inline(orig, j),
                    ),
                    forall|j: int| deletion_start <= j < deletion_start + offset ==> line_with_inline(
                        orig[j],
                        #[trigger] lines@[j],
                        expected_inline(orig, j),
                    ),
                    forall|j: int| deletion_start + offset <= j < len ==> #[trigger] lines@[j] == orig[j],
                    forall|j: int| 0 <= j < deletion_start + offset ==> #[trigger] inline_spells_line(orig, j),
                decreases deletion_count - offset,
            {
                let j = deletion_start + offset;
                proof {
                    lemma_empty_literal();
                    lemma_run_start(orig, deletion_start as int, j as int, LineType::Deletion);
                    lemma_run_end(orig, j as int, addition_start as int, LineType::Deletion);
                }
                if offset < addition_count {
                    let (old_segments, _) = build_inline_segments(
                        lines[j].content.as_str(),
                        lines[addition_start + offset].content.as_str(),
                    );
                    set_inline(lines, j, old_segments);
                } else {
                    let (old_segments, _) = build_inline_segments(lines[j].content.as_str(), "");
                    set_inline(lines, j, old_segments);
                }
                offset += 1;
            }
            let mut offset: usize = 0;
            while offset < addition_count
                invariant
                    len == orig.len(),
                    lines@.len() == len,
                    deletion_start < addition_start <= addition_end <= len,
                    deletion_count == addition_start - deletion_start,
                    addition_count == addition_end - addition_start,
                    offset <= addition_count,
                    at_run_boundary(orig, deletion_start as int),
                    forall|j: int| deletion_start <= j < addition_start ==> #[trigger] orig[j].line_type
                        == LineType::Deletion,
                    forall|j: int| addition_start <= j < addition_end ==> #[trigger] orig[j].line_type
                        == LineType::Addition,
                    forall|j: int| 0 <= j < addition_start + offset ==> line_with_inline(
                        orig[j],
                        #[trigger] lines@[j],
                        expected_inline(orig, j),
                    ),
                    forall|j: int| addition_start + offset <= j < len ==> #[trigger] lines@[j] == orig[j],
                    forall|j: int| 0 <= j < addition_start + offset ==> #[trigger] inline_spells_line(orig, j),
                    forall|j: int| deletion_start <= j < addition_start ==> #[trigger] lines@[j].content
                        == orig[j].content,
                decreases addition_count - offset,
            {
                let j = addition_start + offset;
                proof {
                    lemma_empty_literal();
                    lemma_run_start(orig, addition_start as int, j as int, LineType::Addition);
                    lemma_run_start(orig, deletion_start as int, addition_start - 1, LineType::Deletion);
                }
                if offset < deletion_count {
                    let (_, new_segments) = build_inline_segments(
                        lines[deletion_start + offset].content.as_str(),
                        lines[j].content.as_str(),
                    );
                    set_inline(lines, j, new_segments);
                } else {
                    let (_, new_segments) = build_inline_segments("", lines[j].content.as_str());
                    set_inline(lines, j, new_segments);
                }
                offset += 1;
            }
            let _ = pair_count;
        }
    }
}

/// Compute inline word-level diffs for paired deletion/addition lines inside each hunk.
pub fn compute_inline_diffs(diff: &mut Diff)
    ensures
        final(diff).file_path == old(diff).file_path,
        final(diff).context == old(diff).context,
        final(diff).binary == old(diff).binary,
        final(diff).hunks@.len() == old(diff).hunks@.len(),
        forall|h: int| 0 <= h < old(diff).hunks@.len() ==> hunk_with_inline(
            old(diff).hunks@[h],
            #[trigger] final(diff).hunks@[h],
        ),
        forall|h: int, j: int| 0 <= h < old(diff).hunks@.len() && 0 <= j < old(diff).hunks@[h].lines@.len()
            ==> #[trigger] inline_spells_line(old(diff).hunks@[h].lines@, j),
{
    let ghost before = diff.hunks@;
    let count = diff.hunks.len();
    let mut h: usize = 0;
    while h < count
        invariant
            count == before.len(),
            diff.hunks@.len() == count,
            diff.file_path == old(diff).file_path,
            diff.context == old(diff).context,
            diff.binary == old(diff).binary,
            before == old(diff).hunks@,
            h <= count,
            forall|k: int| 0 <= k < h ==> hunk_with_inline(before[k], #[trigger] diff.hunks@[k]),
            forall|k: int, j: int| 0 <= k < h && 0 <= j < before[k].lines@.len()
                ==> #[trigger] inline_spells_line(before[k].lines@, j),
            forall|k: int| h <= k < count ==> #[trigger] diff.hunks@[k] == before[k],
        decreases count - h,
    {
        compute_inline_for_lines(&mut diff.hunks[h].lines);
        h += 1;
    }
}

} // verus!
