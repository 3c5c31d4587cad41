use vstd::prelude::*;
use crate::app::Side;
use crate::model::{BlockKind, DiffResult, DisplayRow, InlineDiff, InlineKind, InlineSegment};
use crate::text::{pad_right, spaces, push_spaces};
use crate::view::{
    Shade, code_text, code_text_spec, gutter_text, gutter_text_spec, inline_offset, inline_padding,
    one_plus_sum, row_inline_diff, row_line, row_shade, row_shade_spec, segment_emphasized,
};

verus! {

/// A run of text in a code cell, drawn with emphasis or in the row's style.
pub struct CodeSpan {
    pub text: String,
    pub emphasized: bool,
}

/// The code cell of a row.
pub enum CodeCell {
    /// The whole cell in the row's style.
    Plain(String),
    /// A replaced line in runs: a leading space, one run per inline segment
    /// (the changed ones emphasized), then the padding.
    Runs(Vec<CodeSpan>),
}

/// What one display row shows on one side: its gutter cell, its shade, and
/// its code cell.
pub struct RowCells {
    pub gutter: String,
    pub shade: Shade,
    pub code: CodeCell,
}

pub open spec fn spans_view(v: Seq<CodeSpan>) -> Seq<(Seq<char>, bool)> {
    v.map_values(|c: CodeSpan| (c.text@, c.emphasized))
}

/// The segments of an inline diff as runs: their text, and whether changed.
pub open spec fn segments_view(segs: Seq<InlineSegment>) -> Seq<(Seq<char>, bool)> {
    segs.map_values(|g: InlineSegment| (g.text@, g.kind == InlineKind::Changed))
}

/// The text that a sequence of runs spells.
pub open spec fn runs_text(runs: Seq<(Seq<char>, bool)>) -> Seq<char>
    decreases runs.len(),
{
    if runs.len() == 0 {
        Seq::<char>::empty()
    } else {
        runs_text(runs.drop_last()) + runs.last().0
    }
}

/// The runs of a replaced line drawn with its inline diff: a plain leading
/// space, the segments, and plain spaces up to `width` characters.
pub open spec fn inline_runs_spec(segs: Seq<(Seq<char>, bool)>, width: usize) -> Seq<(Seq<char>, bool)> {
    let body = seq![(seq![' '], false)] + segs;
    let used = runs_text(body).len();
    if used < width {
        body.push((spaces(width - used), false))
    } else {
        body
    }
}

/// The segments of one side of an inline diff.
pub open spec fn side_segments(d: InlineDiff, side: Side) -> Seq<InlineSegment> {
    match side {
        Side::Left => d.left_segments@,
        Side::Right => d.right_segments@,
    }
}

/// The inline diff a row is drawn with on `side`, if any (see `row_inline_diff`).
pub open spec fn row_inline_spec(row: DisplayRow, side: Side, diff: DiffResult) -> Option<InlineDiff> {
    let block = diff.blocks@[row.block_index as int];
    if row.kind == BlockKind::Replace && (inline_offset(row, side, diff) matches Some(o) && o
        < block.inline_diffs@.len()) {
        Some(block.inline_diffs@[inline_offset(row, side, diff)->0])
    } else {
        None
    }
}

/// The line a row shows on `side` (none for padding).
pub open spec fn row_line_spec(row: DisplayRow, side: Side) -> Option<usize> {
    match side {
        Side::Left => row.left_line,
        Side::Right => row.right_line,
    }
}

/// What a row shows on `side`: the gutter cell for its line; its shade; and
/// either the runs of its inline diff, or the line (`lines` taken as drawn)
/// in one run, padded on changed rows.
pub open spec fn row_cells_spec(
    c: RowCells,
    row: DisplayRow,
    diff: DiffResult,
    lines: Seq<String>,
    side: Side,
    active: Option<usize>,
    digit_width: usize,
    gutter_width: u16,
    width: usize,
) -> bool {
    &&& c.gutter@ == gutter_text_spec(row_line_spec(row, side), digit_width, gutter_width)
    &&& c.shade == row_shade_spec(row, active)
    &&& match row_inline_spec(row, side, diff) {
        Some(d) => c.code matches CodeCell::Runs(runs) && spans_view(runs@) == inline_runs_spec(
            segments_view(side_segments(d, side)),
            width,
        ),
        None => c.code matches CodeCell::Plain(t) && t@ == code_text_spec(
            match row_line_spec(row, side) {
                Some(l) => Some(lines[l as int]@),
                None => None,
            },
            row.kind != BlockKind::Equal,
            width,
        ),
    }
}

proof fn lemma_runs_text_cons(x: (Seq<char>, bool), runs: Seq<(Seq<char>, bool)>)
    ensures
        runs_text(seq![x] + runs) == x.0 + runs_text(runs),
    decreases runs.len(),
{
    if runs.len() == 0 {
        assert(seq![x] + runs =~= seq![x]);
        assert(seq![x].drop_last() =~= Seq::<(Seq<char>, bool)>::empty());
        reveal_with_fuel(runs_text, 2);
        assert(runs_text(seq![x]) =~= x.0);
    } else {
        lemma_runs_text_cons(x, runs.drop_last());
        assert((seq![x] + runs).drop_last() =~= seq![x] + runs.drop_last());
        assert(runs_text(seq![x] + runs) =~= x.0 + runs_text(runs));
    }
}

proof fn lemma_runs_text_len(runs: Seq<(Seq<char>, bool)>, widths: Seq<usize>)
    requires
        widths.len() == runs.len(),
        forall|k: int| 0 <= k < runs.len() ==> widths[k] == (#[trigger] runs[k]).0.len(),
    ensures
        one_plus_sum(widths) == 1 + runs_text(runs).len(),
    decreases runs.len(),
{
    if runs.len() > 0 {
        lemma_runs_text_len(runs.drop_last(), widths.drop_last());
    }
}

/// The runs of a replaced line spell the line with its leading space,
/// padded to `width` characters: as wide as every other changed row.
pub proof fn lemma_inline_runs_padded(segs: Seq<(Seq<char>, bool)>, width: usize)
    ensures
        runs_text(inline_runs_spec(segs, width)) == pad_right(seq![' '] + runs_text(segs), width as int),
{
    let body = seq![(seq![' '], false)] + segs;
    lemma_runs_text_cons((seq![' '], false), segs);
    let used = runs_text(body).len();
    if used < width {
        assert(body.push((spaces(width - used), false)).drop_last() =~= body);
    } else {
        assert(spaces(width - used) =~= Seq::<char>::empty());
        assert(runs_text(body) + spaces(width - used) =~= runs_text(body));
    }
}

/// The runs of a replaced line from its segments on one side.
fn inline_runs(segs: &Vec<InlineSegment>, width: usize) -> (v: Vec<CodeSpan>)
    ensures
        spans_view(v@) == inline_runs_spec(segments_view(segs@), width),
{
    let mut v: Vec<CodeSpan> = Vec::new();
    let mut lead = String::new();
    lead.push(' ');
    v.push(CodeSpan { text: lead, emphasized: false });
    let mut widths: Vec<usize> = Vec::new();
    let ghost first = (seq![' '], false);
    let mut j: usize = 0;
    while j < segs.len()
        invariant
            j <= segs@.len(),
            widths@.len() == j,
            forall|k: int| 0 <= k < j ==> widths@[k] == (#[trigger] segs@[k]).text@.len(),
            spans_view(v@) == seq![first] + segments_view(segs@).take(j as int),
            first == (seq![' '], false),
        decreases segs@.len() - j,
    {
        let seg = &segs[j];
        let mut t = String::new();
        t.append(seg.text.as_str());
        proof {
            assert(t@ =~= seg.text@);
        }
        widths.push(t.as_str().unicode_len());
        let emph = segment_emphasized(seg.kind);
        let ghost pre = v@;
        v.push(CodeSpan { text: t, emphasized: emph });
        j += 1;
        proof {
            assert(segments_view(segs@).take(j as int) =~= segments_view(segs@).take(j - 1).push(
                segments_view(segs@)[j - 1],
            ));
            assert(spans_view(v@) =~= spans_view(pre).push((seg.text@, seg.kind == InlineKind::Changed)));
            assert(spans_view(v@) =~= seq![first] + segments_view(segs@).take(j as int));
        }
    }
    proof {
        assert(segments_view(segs@).take(j as int) =~= segments_view(segs@));
        lemma_runs_text_len(segments_view(segs@), widths@);
        lemma_runs_text_cons(first, segments_view(segs@));
    }
    let pad = inline_padding(&widths, width);
    if pad > 0 {
        let mut p = String::new();
        push_spaces(&mut p, pad);
        v.push(CodeSpan { text: p, emphasized: false });
        proof {
            assert(spans_view(v@) =~= inline_runs_spec(segments_view(segs@), width));
        }
    }
    v
}

/// The cells of every display row on one side, in row order: what the
/// gutter and code columns of the pane show. `lines` are the side's lines
/// and `diff` the diff, with their text as it is drawn (tabs expanded);
/// `width` is the width of the widest line, to which changed rows are padded.
pub fn side_cells(
    rows: &Vec<DisplayRow>,
    diff: &DiffResult,
    lines: &Vec<String>,
    side: Side,
    active: Option<usize>,
    digit_width: usize,
    gutter_width: u16,
    width: usize,
) -> (r: Vec<RowCells>)
    requires
        forall|i: int|
            0 <= i < rows@.len() ==> ((#[trigger] rows@[i]).kind == BlockKind::Replace ==> rows@[i].block_index
                < diff.blocks@.len()),
        forall|i: int|
            0 <= i < rows@.len() ==> (row_line_spec(#[trigger] rows@[i], side) matches Some(l) ==> l
                < lines@.len()),
    ensures
        r@.len() == rows@.len(),
        forall|i: int|
            0 <= i < rows@.len() ==> row_cells_spec(
                #[trigger] r@[i],
                rows@[i],
                *diff,
                lines@,
                side,
                active,
                digit_width,
                gutter_width,
                width,
            ),
{
    let mut r: Vec<RowCells> = Vec::new();
    let mut i: usize = 0;
    while i < rows.len()
        invariant
            i <= rows@.len(),
            r@.len() == i,
            forall|k: int|
                0 <= k < rows@.len() ==> ((#[trigger] rows@[k]).kind == BlockKind::Replace
                    ==> rows@[k].block_index < diff.blocks@.len()),
            forall|k: int|
                0 <= k < rows@.len() ==> (row_line_spec(#[trigger] rows@[k], side) matches Some(l) ==> l
                    < lines@.len()),
            forall|k: int|
                0 <= k < i ==> row_cells_spec(
                    #[trigger] r@[k],
                    rows@[k],
                    *diff,
                    lines@,
                    side,
                    active,
                    digit_width,
                    gutter_width,
                    width,
                ),
        decreases rows@.len() - i,
    {
        let row = &rows[i];
        let line = row_line(row, side);
        let gutter = gutter_text(line, digit_width, gutter_width);
        let shade = row_shade(row, active);
        let code = match row_inline_diff(row, side, diff) {
            Some(d) => {
                let segs = match side {
                    Side::Left => &d.left_segments,
                    Side::Right => &d.right_segments,
                };
                CodeCell::Runs(inline_runs(segs, width))
            },
            None => {
                let text = match line {
                    Some(l) => Some(lines[l].as_str()),
                    None => None,
                };
                CodeCell::Plain(code_text(text, row.kind != BlockKind::Equal, width))
            },
        };
        r.push(RowCells { gutter, shade, code });
        i += 1;
    }
    r
}

} // verus!
