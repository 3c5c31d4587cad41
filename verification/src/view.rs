use vstd::prelude::*;
use crate::app::{App, Side};
use crate::model::{BlockKind, DiffResult, DisplayRow, InlineDiff, InlineKind};
use crate::text::{decimal, pad_left, pad_right, spaces, push_decimal, push_spaces, decimal_len, lemma_usize_decimal_len};
use crate::layout::{Area, Constraint, split_area, split_part, bordered_inner, bordered_inner_spec, solver_split};
use crate::input::{centered_on_current, scroll_to_current_block, chord_age, chord_expired_after, live_after, age_reading};
use crate::viewport::Viewport;

verus! {

/// The position, within its block's inline diffs, of the line a row shows on
/// `side`: its line number minus the block's first line on that side (none
/// when the side shows padding or the line lies before the block).
pub open spec fn inline_offset(row: DisplayRow, side: Side, diff: DiffResult) -> Option<int> {
    let block = diff.blocks@[row.block_index as int];
    let (line, start) = match side {
        Side::Left => (row.left_line, block.left_range.start),
        Side::Right => (row.right_line, block.right_range.start),
    };
    match line {
        Some(l) => if l >= start {
            Some(l - start)
        } else {
            None
        },
        None => None,
    }
}

/// Look up the InlineDiff for a Replace row, if one exists.
pub fn inline_diff_for_row<'a>(row: &DisplayRow, side: Side, diff: &'a DiffResult) -> (r: Option<&'a InlineDiff>)
    requires
        row.block_index < diff.blocks@.len(),
    ensures
        r is Some <==> (inline_offset(*row, side, *diff) matches Some(o) && o
            < diff.blocks@[row.block_index as int].inline_diffs@.len()),
        r matches Some(d) ==> *d == diff.blocks@[row.block_index as int].inline_diffs@[inline_offset(
            *row,
            side,
            *diff,
        )->0],
{
    let block = &diff.blocks[row.block_index];
    // Offset of this row within its block.
    let line = match side {
        Side::Left => row.left_line,
        Side::Right => row.right_line,
    };
    let start = match side {
        Side::Left => block.left_range.start,
        Side::Right => block.right_range.start,
    };
    match line {
        None => None,
        Some(l) => {
            if l < start {
                return None;
            }
            let offset = l - start;
            if offset < block.inline_diffs.len() {
                Some(&block.inline_diffs[offset])
            } else {
                None
            }
        },
    }
}

/// The inline diff a row is drawn with: only replaced rows use one, and
/// only when their block has one for the row's line on `side`.
pub fn row_inline_diff<'a>(row: &DisplayRow, side: Side, diff: &'a DiffResult) -> (r: Option<&'a InlineDiff>)
    requires
        row.kind == BlockKind::Replace ==> row.block_index < diff.blocks@.len(),
    ensures
        r is Some <==> (row.kind == BlockKind::Replace && (inline_offset(*row, side, *diff) matches Some(o)
            && o < diff.blocks@[row.block_index as int].inline_diffs@.len())),
        r matches Some(d) ==> *d == diff.blocks@[row.block_index as int].inline_diffs@[inline_offset(
            *row,
            side,
            *diff,
        )->0],
{
    if row.kind == BlockKind::Replace {
        inline_diff_for_row(row, side, diff)
    } else {
        None
    }
}

/// The background a row gets: plain for equal rows, a diff tint for changed
/// rows, a stronger one for rows of the active block.
#[derive(Debug, Clone, Copy, PartialEq, Eq, Structural)]
pub enum Shade {
    Plain,
    Changed,
    ChangedActive,
}

pub open spec fn row_shade_spec(row: DisplayRow, active_block_index: Option<usize>) -> Shade {
    if row.kind == BlockKind::Equal {
        Shade::Plain
    } else if active_block_index == Some(row.block_index) {
        Shade::ChangedActive
    } else {
        Shade::Changed
    }
}

/// The shade of a display row, given the index of the active block.
pub fn row_shade(row: &DisplayRow, active_block_index: Option<usize>) -> (s: Shade)
    ensures
        s == row_shade_spec(*row, active_block_index),
{
    let is_diff = row.kind != BlockKind::Equal;
    let is_active = match active_block_index {
        Some(b) => b == row.block_index,
        None => false,
    };
    if !is_diff {
        Shade::Plain
    } else if is_active {
        Shade::ChangedActive
    } else {
        Shade::Changed
    }
}

/// Whether a piece of a replaced line is drawn with emphasis.
pub fn segment_emphasized(kind: InlineKind) -> (b: bool)
    ensures
        b == (kind == InlineKind::Changed),
{
    match kind {
        InlineKind::Equal => false,
        InlineKind::Changed => true,
    }
}

/// The line shown on `side` by a row (none for padding).
pub fn row_line(row: &DisplayRow, side: Side) -> (l: Option<usize>)
    ensures
        l == match side {
            Side::Left => row.left_line,
            Side::Right => row.right_line,
        },
{
    match side {
        Side::Left => row.left_line,
        Side::Right => row.right_line,
    }
}

/// The gutter cell of a row: the 1-based line number right-aligned in
/// `digit_width` columns between two spaces, or `gutter_width` spaces for padding.
pub open spec fn gutter_text_spec(line: Option<usize>, digit_width: usize, gutter_width: u16) -> Seq<char> {
    match line {
        Some(idx) => seq![' '] + pad_left(decimal((idx + 1) as nat), digit_width as int) + seq![' '],
        None => spaces(gutter_width as int),
    }
}

pub fn gutter_text(line: Option<usize>, digit_width: usize, gutter_width: u16) -> (s: String)
    ensures
        s@ == gutter_text_spec(line, digit_width, gutter_width),
{
    let mut s = String::new();
    match line {
        Some(idx) => {
            s.push(' ');
            let n = idx as u128 + 1;
            let len = decimal_len(n);
            if len < digit_width {
                push_spaces(&mut s, digit_width - len);
            } else {
                push_spaces(&mut s, 0);
            }
            push_decimal(&mut s, n);
            s.push(' ');
            proof {
                assert(s@ =~= gutter_text_spec(line, digit_width, gutter_width));
            }
        },
        None => {
            push_spaces(&mut s, gutter_width as usize);
            proof {
                assert(s@ =~= gutter_text_spec(line, digit_width, gutter_width));
            }
        },
    }
    s
}

/// The code cell of a row drawn in one style: a leading space and the
/// (tab-expanded) line, or a single space for padding; on changed rows padded
/// to `width` characters so the tint spans the pane.
pub open spec fn code_text_spec(text: Option<Seq<char>>, is_diff: bool, width: usize) -> Seq<char> {
    let base = match text {
        Some(t) => seq![' '] + t,
        None => seq![' '],
    };
    if is_diff {
        pad_right(base, width as int)
    } else {
        base
    }
}

pub fn code_text(text: Option<&str>, is_diff: bool, width: usize) -> (s: String)
    ensures
        s@ == code_text_spec(
            match text {
                Some(t) => Some(t@),
                None => None,
            },
            is_diff,
            width,
        ),
{
    let mut s = String::new();
    s.push(' ');
    if let Some(t) = text {
        s.append(t);
    }
    if is_diff {
        let len = s.as_str().unicode_len();
        if len < width {
            push_spaces(&mut s, width - len);
        } else {
            push_spaces(&mut s, 0);
        }
    }
    proof {
        assert(s@ =~= code_text_spec(
            match text {
                Some(t) => Some(t@),
                None => None,
            },
            is_diff,
            width,
        ));
    }
    s
}

/// The total of `widths` plus one.
pub open spec fn one_plus_sum(widths: Seq<usize>) -> int
    decreases widths.len(),
{
    if widths.len() == 0 {
        1
    } else {
        one_plus_sum(widths.drop_last()) + widths.last()
    }
}

/// The padding after the pieces of a replaced line: the pieces take a leading
/// space plus their `widths` (in characters); the rest up to `max_width`.
pub fn inline_padding(widths: &Vec<usize>, max_width: usize) -> (p: usize)
    ensures
        p == if one_plus_sum(widths@) < max_width {
            max_width - one_plus_sum(widths@)
        } else {
            0
        },
{
    let mut total: usize = 1;
    let mut i: usize = 0;
    proof {
        lemma_one_plus_sum_grows(widths@);
        assert(widths@.take(0) =~= Seq::<usize>::empty());
    }
    if max_width <= total {
        return 0;
    }
    while i < widths.len()
        invariant
            i <= widths.len(),
            total == one_plus_sum(widths@.take(i as int)),
            total < max_width,
            forall|j: int| 0 <= j <= widths@.len() ==> one_plus_sum(widths@.take(j)) <= one_plus_sum(
                widths@,
            ),
        decreases widths.len() - i,
    {
        proof {
            assert(widths@.take(i + 1).drop_last() =~= widths@.take(i as int));
        }
        if widths[i] >= max_width - total {
            return 0;
        }
        total = total + widths[i];
        i += 1;
    }
    proof {
        assert(widths@.take(widths.len() as int) =~= widths@);
    }
    max_width - total
}

proof fn lemma_one_plus_sum_grows(widths: Seq<usize>)
    ensures
        forall|j: int| 0 <= j <= widths.len() ==> one_plus_sum(#[trigger] widths.take(j)) <= one_plus_sum(
            widths,
        ),
    decreases widths.len(),
{
    if widths.len() > 0 {
        lemma_one_plus_sum_grows(widths.drop_last());
        assert forall|j: int| 0 <= j <= widths.len() implies one_plus_sum(#[trigger] widths.take(j))
            <= one_plus_sum(widths) by {
            if j < widths.len() {
                assert(widths.take(j) =~= widths.drop_last().take(j));
            } else {
                assert(widths.take(j) =~= widths);
            }
        }
    }
}

/// A piece of the status line, drawn highlighted or not.
pub struct HintSpan {
    pub text: String,
    pub highlight: bool,
}

pub open spec fn hint_view(v: Seq<HintSpan>) -> Seq<(Seq<char>, bool)> {
    v.map_values(|h: HintSpan| (h.text@, h.highlight))
}

/// The start of the status line: the change count, or that the files agree.
pub open spec fn hint_prefix(a: App) -> Seq<char> {
    if a.model.change_count == 0 {
        " Files are identical  ["@
    } else {
        seq![' '] + decimal((a.model.current_block + 1) as nat) + seq!['/'] + decimal(
            a.model.change_count as nat,
        ) + "  ["@
    }
}

/// The status line: the prefix, then the key hints. With unsaved changes it
/// offers saving (through the picker when both sides are dirty) and `q!`,
/// the `q` highlighted while that chord is live; otherwise it offers `q`.
pub open spec fn status_hint_spec(a: App, q_live: bool) -> Seq<(Seq<char>, bool)> {
    let dirty = a.model.left_dirty || a.model.right_dirty;
    let both = a.model.left_dirty && a.model.right_dirty;
    let middle = if dirty {
        (if both {
            seq![("w → save…"@, false)]
        } else {
            seq![("w → save"@, false), (" | "@, false), ("wq → save & quit"@, false)]
        }) + seq![(" | "@, false), ("q"@, a.input.pending_q && q_live), ("! → force quit"@, false)]
    } else {
        seq![("q → quit"@, false)]
    };
    seq![(hint_prefix(a), false)] + middle + seq![("]"@, false)]
}

fn span(text: &str, highlight: bool) -> (h: HintSpan)
    ensures
        h.text@ == text@,
        h.highlight == highlight,
{
    HintSpan { text: String::from_str(text), highlight }
}

/// Build the status-bar hint line; `q_live` tells whether a pending `q`
/// chord is still within its timeout.
pub fn status_hint(app: &App, q_live: bool) -> (v: Vec<HintSpan>)
    ensures
        hint_view(v@) == status_hint_spec(*app, q_live),
{
    let is_dirty = app.model.left_dirty || app.model.right_dirty;
    let mut prefix = String::new();
    if app.model.change_count == 0 {
        prefix.append(" Files are identical  [");
    } else {
        prefix.push(' ');
        push_decimal(&mut prefix, app.model.current_block as u128 + 1);
        prefix.push('/');
        push_decimal(&mut prefix, app.model.change_count as u128);
        prefix.append("  [");
    }
    proof {
        assert(prefix@ =~= hint_prefix(*app));
    }
    let mut spans: Vec<HintSpan> = Vec::new();
    spans.push(HintSpan { text: prefix, highlight: false });
    if is_dirty {
        let q_active = app.input.pending_q && q_live;
        let both_dirty = app.model.left_dirty && app.model.right_dirty;
        if both_dirty {
            spans.push(span("w → save…", false));
        } else {
            spans.push(span("w → save", false));
            spans.push(span(" | ", false));
            spans.push(span("wq → save & quit", false));
        }
        spans.push(span(" | ", false));
        spans.push(span("q", q_active));
        spans.push(span("! → force quit", false));
    } else {
        spans.push(span("q → quit", false));
    }
    spans.push(span("]", false));
    proof {
        assert(hint_view(spans@) =~= status_hint_spec(*app, q_live));
    }
    spans
}

/// The status line as of now: the `q` chord counts as live while no more
/// than the chord timeout has passed since it started, by the clock.
pub fn status_hint_now(app: &App) -> (v: Vec<HintSpan>)
    ensures
        exists|e: Option<u128>|
            age_reading(app.input.pending_q_at, e) && hint_view(v@) == #[trigger] status_hint_spec(
                *app,
                live_after(e),
            ),
{
    let age = chord_age(app.input.pending_q_at);
    let live = !chord_expired_after(age);
    let v = status_hint(app, live);
    proof {
        assert(hint_view(v@) == status_hint_spec(*app, live_after(age)));
    }
    v
}

/// Width in columns of the minimap pane when shown.
pub const MINIMAP_WIDTH: u16 = 1;

/// Height in rows of a pane's header.
pub const HEADER_HEIGHT: u16 = 3;

/// The parts of the screen: the body above a one-row status bar, split into
/// two equal panes with a one-column gap, and (when shown) a minimap column
/// at the right of the body.
pub struct FrameAreas {
    pub body: Area,
    pub status: Area,
    pub left: Area,
    pub right: Area,
    pub minimap: Option<Area>,
}

/// What holds of the parts of the screen whatever the layout solver
/// returns: the body and the status bar are parts of a split down the
/// frame; the panes (and the minimap, shown exactly when asked for) are
/// parts of a split across the body.
pub open spec fn frame_areas_fit(r: FrameAreas, show_minimap: bool, frame: Area) -> bool {
    &&& split_part(true, r.body, frame)
    &&& split_part(true, r.status, frame)
    &&& split_part(false, r.left, r.body)
    &&& split_part(false, r.right, r.body)
    &&& (r.minimap is Some <==> show_minimap)
    &&& (r.minimap matches Some(m) ==> split_part(false, m, r.body))
    &&& frame_areas_asked(r, show_minimap, frame)
}

/// The parts down the frame: the body, then the one-row status bar.
pub open spec fn frame_rows() -> Seq<Constraint> {
    seq![Constraint::Min(0), Constraint::Length(1)]
}

/// The parts across the body when the minimap is shown: the panes, then
/// the minimap column.
pub open spec fn minimap_cols() -> Seq<Constraint> {
    seq![Constraint::Min(0), Constraint::Length(MINIMAP_WIDTH)]
}

/// The two panes: equal halves.
pub open spec fn pane_halves() -> Seq<Constraint> {
    seq![Constraint::Percentage(50), Constraint::Percentage(50)]
}

/// Which part of which split each area of the screen is: the body and the
/// status bar are the parts of `frame_rows()` down the frame; the panes are
/// the parts of `pane_halves()`, one cell apart, across the body, or across
/// the first part of `minimap_cols()` across the body when the minimap (its
/// second part) is shown.
pub open spec fn frame_areas_asked(r: FrameAreas, show_minimap: bool, frame: Area) -> bool {
    &&& exists|outer: Seq<Area>|
        #![trigger solver_split(true, frame_rows(), 0, frame, outer)]
        {
            &&& outer.len() == 2
            &&& solver_split(true, frame_rows(), 0, frame, outer)
            &&& r.body == outer[0]
            &&& r.status == outer[1]
        }
    &&& if show_minimap {
        exists|parts: Seq<Area>, lr: Seq<Area>|
            #![trigger solver_split(false, minimap_cols(), 0, r.body, parts), solver_split(false, pane_halves(), 1, parts[0], lr)]
            {
                &&& parts.len() == 2
                &&& solver_split(false, minimap_cols(), 0, r.body, parts)
                &&& lr.len() == 2
                &&& solver_split(false, pane_halves(), 1, parts[0], lr)
                &&& r.minimap == Some(parts[1])
                &&& r.left == lr[0]
                &&& r.right == lr[1]
            }
    } else {
        exists|lr: Seq<Area>|
            #![trigger solver_split(false, pane_halves(), 1, r.body, lr)]
            {
                &&& lr.len() == 2
                &&& solver_split(false, pane_halves(), 1, r.body, lr)
                &&& r.left == lr[0]
                &&& r.right == lr[1]
            }
    }
}

/// The body is the first of the parts `Min(0)`, `Length(1)` down the frame
/// and the status bar the second; the body is split across into the two
/// halves (`Percentage(50)` twice, one cell apart), after taking off a
/// `Length(MINIMAP_WIDTH)` column at its right for the minimap when shown.
pub fn frame_areas(show_minimap: bool, frame: Area) -> (r: FrameAreas)
    ensures
        frame_areas_fit(r, show_minimap, frame),
{
    let mut outer_c: Vec<Constraint> = Vec::new();
    outer_c.push(Constraint::Min(0));
    outer_c.push(Constraint::Length(1));
    let outer = split_area(true, &outer_c, 0, frame);
    proof {
        assert(outer_c@ =~= frame_rows());
    }
    let body = outer[0];
    proof {
        assert(split_part(true, outer@[0], frame));
        assert(split_part(true, outer@[1], frame));
    }
    let mut halves: Vec<Constraint> = Vec::new();
    halves.push(Constraint::Percentage(50));
    halves.push(Constraint::Percentage(50));
    proof {
        assert(halves@ =~= pane_halves());
    }
    if show_minimap {
        let mut parts_c: Vec<Constraint> = Vec::new();
        parts_c.push(Constraint::Min(0));
        parts_c.push(Constraint::Length(MINIMAP_WIDTH));
        let parts = split_area(false, &parts_c, 0, body);
        proof {
            assert(parts_c@ =~= minimap_cols());
        }
        let lr = split_area(false, &halves, 1, parts[0]);
        proof {
            assert(split_part(false, parts@[0], body));
            assert(split_part(false, lr@[0], parts@[0]));
            assert(split_part(false, lr@[1], parts@[0]));
            assert(solver_split(false, pane_halves(), 1, parts@[0], lr@));
        }
        FrameAreas { body, status: outer[1], left: lr[0], right: lr[1], minimap: Some(parts[1]) }
    } else {
        let lr = split_area(false, &halves, 1, body);
        proof {
            assert(split_part(false, lr@[0], body));
            assert(split_part(false, lr@[1], body));
        }
        FrameAreas { body, status: outer[1], left: lr[0], right: lr[1], minimap: None }
    }
}

/// What drawing needs beyond the areas: the width of the line-number column,
/// the rows of code a pane shows, the active block, the gap cells that mark
/// the active block, and the minimap rectangle aligned with the code.
pub struct FramePlan {
    pub digit_width: usize,
    pub inner_height: u16,
    pub active_block_index: Option<usize>,
    pub pill_cells: Vec<(u16, u16)>,
    pub minimap: Option<Area>,
}

/// Columns for line numbers: the digits of the largest line count, at least two.
pub open spec fn digit_width_spec(max_lines: usize) -> usize {
    if decimal(max_lines as nat).len() < 2 {
        2
    } else {
        decimal(max_lines as nat).len() as usize
    }
}

pub fn digit_width(max_lines: usize) -> (w: usize)
    ensures
        w == digit_width_spec(max_lines),
        2 <= w <= 20,
{
    proof {
        lemma_usize_decimal_len(max_lines);
    }
    let n = decimal_len(max_lines as u128);
    if n < 2 {
        2
    } else {
        n
    }
}

/// The rows of code a pane shows: its height less the header and the two
/// borders of the content block.
pub open spec fn inner_height_spec(left: Area) -> u16 {
    left.height.saturating_sub(HEADER_HEIGHT).saturating_sub(2)
}

/// The columns of code a pane shows: its width less the two borders and the gutter.
pub open spec fn inner_code_width_spec(left: Area, digit_width: usize) -> u16 {
    left.width.saturating_sub(2).saturating_sub((digit_width + 2) as u16)
}

/// The app once the viewport takes the pane's size: offsets clamped to the
/// new limits, and on the first frame the current change block centered.
pub open spec fn framed_app(a: App, left: Area) -> App {
    let dw = digit_width_spec(max_line_count(a));
    let v = Viewport {
        height: inner_height_spec(left),
        width: inner_code_width_spec(left, dw),
        ..a.viewport
    }.clamped(a.model.display_rows@.len(), a.model.max_content_width as u16);
    let a1 = App { viewport: v, ..a };
    if a.needs_initial_scroll {
        centered_on_current(App { needs_initial_scroll: false, ..a1 })
    } else {
        a1
    }
}

/// The gap cell (just right of the left pane) beside display row `i`.
pub open spec fn pill_at(i: int, scroll_y: u16, left: Area) -> (u16, u16) {
    (
        ((left.x + left.width) % 65536) as u16,
        ((left.y + HEADER_HEIGHT + 1 + (i - scroll_y)) % 65536) as u16,
    )
}

/// Whether display row `i` gets a gap cell: it belongs to block `b`, it is on
/// screen, and the cell lies within the frame.
pub open spec fn pill_shown(
    rows: Seq<DisplayRow>,
    i: int,
    b: usize,
    scroll_y: u16,
    inner_height: u16,
    left: Area,
    frame: Area,
) -> bool {
    let (gx, gy) = pill_at(i, scroll_y, left);
    &&& rows[i].block_index == b
    &&& scroll_y <= i < scroll_y + inner_height
    &&& gx < frame.width
    &&& gy < (frame.y + frame.height) % 65536
}

/// The gap cells of the rows `rows[..n]` that get one, in row order.
pub open spec fn pill_cells_spec(
    rows: Seq<DisplayRow>,
    n: int,
    b: usize,
    scroll_y: u16,
    inner_height: u16,
    left: Area,
    frame: Area,
) -> Seq<(u16, u16)>
    decreases n,
{
    if n <= 0 {
        Seq::<(u16, u16)>::empty()
    } else {
        let prev = pill_cells_spec(rows, n - 1, b, scroll_y, inner_height, left, frame);
        if pill_shown(rows, n - 1, b, scroll_y, inner_height, left, frame) {
            prev.push(pill_at(n - 1, scroll_y, left))
        } else {
            prev
        }
    }
}

/// The minimap aligned with the code rows: below the header and the top
/// border, no taller than the code area.
pub open spec fn minimap_content_spec(m: Area, inner_height: u16) -> Area {
    let h = m.height.saturating_sub(4u16);
    Area {
        x: m.x,
        y: ((m.y + HEADER_HEIGHT + 1) % 65536) as u16,
        width: m.width,
        height: if h < inner_height {
            h
        } else {
            inner_height
        },
    }
}

/// The largest line count of the two sides.
pub open spec fn max_line_count(a: App) -> usize {
    if a.model.left_content.lines@.len() >= a.model.right_content.lines@.len() {
        a.model.left_content.lines@.len() as usize
    } else {
        a.model.right_content.lines@.len() as usize
    }
}

/// The active block of an app: the current change block, if there is one.
pub open spec fn active_block_spec(a: App) -> Option<usize> {
    if a.model.change_block_indices@.len() == 0 {
        None
    } else {
        Some(a.model.change_block_indices@[a.model.current_block as int])
    }
}

/// The plan of a frame, given the app before and after the viewport update,
/// the screen and its parts: the gutter digits for the longer side, the
/// code rows of a pane, the active block, its gap cells, and the minimap
/// aligned with the code.
pub open spec fn frame_plan_fits(plan: FramePlan, pre: App, post: App, frame: Area, areas: FrameAreas) -> bool {
    &&& plan.digit_width == digit_width_spec(max_line_count(pre))
    &&& 2 <= plan.digit_width <= 20
    &&& plan.inner_height == inner_height_spec(areas.left)
    &&& plan.active_block_index == active_block_spec(post)
    &&& plan.pill_cells@ == match plan.active_block_index {
        Some(b) => pill_cells_spec(
            post.model.display_rows@,
            post.model.display_rows@.len() as int,
            b,
            post.viewport.scroll_y,
            plan.inner_height,
            areas.left,
            frame,
        ),
        None => Seq::<(u16, u16)>::empty(),
    }
    &&& plan.minimap == match areas.minimap {
        Some(m) => Some(minimap_content_spec(m, plan.inner_height)),
        None => None,
    }
}

/// Update the viewport for this frame and work out what the panes, the gap
/// marker and the minimap need. `frame` is the whole screen and `areas` its
/// split (see `frame_areas`).
pub fn prepare_frame(app: &mut App, frame: Area, areas: &FrameAreas) -> (plan: FramePlan)
    requires
        old(app).wf(),
    ensures
        final(app).wf(),
        *final(app) == framed_app(*old(app), areas.left),
        frame_plan_fits(plan, *old(app), *final(app), frame, *areas),
{
    let left_area = areas.left;
    let ll = app.model.left_content.lines.len();
    let rl = app.model.right_content.lines.len();
    let max_lines = if ll >= rl {
        ll
    } else {
        rl
    };
    let digit_width = digit_width(max_lines);
    // Update viewport dimensions early so initial scroll has correct bounds.
    let content_height = left_area.height.saturating_sub(HEADER_HEIGHT);
    let inner_height = content_height.saturating_sub(2);
    let gutter_cols = gutter_columns(digit_width);
    let inner_code_width = left_area.width.saturating_sub(2).saturating_sub(gutter_cols);
    app.viewport.height = inner_height;
    app.viewport.width = inner_code_width;
    let total_rows = app.model.display_rows.len();
    let max_x = app.model.max_content_width as u16;
    app.viewport.clamp(total_rows, max_x);
    // On first render, scroll to center the first change block.
    if app.needs_initial_scroll {
        app.needs_initial_scroll = false;
        scroll_to_current_block(app);
    }
    let active_block_index = if app.model.change_block_indices.len() == 0 {
        None
    } else {
        Some(app.model.change_block_indices[app.model.current_block])
    };
    // Cells in the one-column gap marking the rows of the current change block.
    let mut pill_cells: Vec<(u16, u16)> = Vec::new();
    if let Some(block_index) = active_block_index {
        let scroll_y = app.viewport.scroll_y;
        let gap_x = ((left_area.x as u32 + left_area.width as u32) % 65536) as u16;
        let bottom = ((frame.y as u32 + frame.height as u32) % 65536) as u16;
        let n = app.model.display_rows.len();
        let mut row: usize = 0;
        while row < n
            invariant
                n == app.model.display_rows@.len(),
                row <= n,
                gap_x == ((left_area.x + left_area.width) % 65536) as u16,
                bottom == ((frame.y + frame.height) % 65536) as u16,
                scroll_y == app.viewport.scroll_y,
                inner_height == inner_height_spec(left_area),
                pill_cells@ == pill_cells_spec(
                    app.model.display_rows@,
                    row as int,
                    block_index,
                    scroll_y,
                    inner_height,
                    left_area,
                    frame,
                ),
            decreases n - row,
        {
            if app.model.display_rows[row].block_index == block_index && row >= scroll_y as usize
                && row < scroll_y as usize + inner_height as usize {
                let screen_row = (row - scroll_y as usize) as u32;
                let gap_y = ((left_area.y as u32 + HEADER_HEIGHT as u32 + 1 + screen_row)
                    % 65536) as u16;
                if gap_x < frame.width && gap_y < bottom {
                    pill_cells.push((gap_x, gap_y));
                }
            }
            row += 1;
        }
    }
    let minimap = match areas.minimap {
        Some(m) => {
            let content_top = HEADER_HEIGHT + 1;
            let h = m.height.saturating_sub(content_top);
            Some(
                Area {
                    x: m.x,
                    y: ((m.y as u32 + content_top as u32) % 65536) as u16,
                    width: m.width,
                    height: if h < inner_height {
                        h
                    } else {
                        inner_height
                    },
                },
            )
        },
        None => None,
    };
    FramePlan { digit_width, inner_height, active_block_index, pill_cells, minimap }
}

/// Update the viewport and plan the frame for a screen of size `frame`.
pub fn plan_frame(app: &mut App, frame: Area) -> (r: (FrameAreas, FramePlan))
    requires
        old(app).wf(),
    ensures
        final(app).wf(),
        frame_areas_fit(r.0, old(app).show_minimap, frame),
        *final(app) == framed_app(*old(app), r.0.left),
        frame_plan_fits(r.1, *old(app), *final(app), frame, r.0),
{
    let areas = frame_areas(app.show_minimap, frame);
    let plan = prepare_frame(app, frame, &areas);
    (areas, plan)
}

/// The parts of one pane: its header, its content block, and inside the
/// content block's border the line-number gutter and the code.
pub struct PaneAreas {
    pub header: Area,
    pub content: Area,
    pub gutter: Area,
    pub code: Area,
}

/// What holds of the parts of a pane whatever the layout solver returns:
/// the header and the content block are parts of a split down the pane;
/// the gutter and the code are parts of a split across the inside of the
/// content block's border.
pub open spec fn pane_areas_fit(r: PaneAreas, area: Area, digit_width: usize) -> bool {
    &&& split_part(true, r.header, area)
    &&& split_part(true, r.content, area)
    &&& split_part(false, r.gutter, bordered_inner_spec(r.content))
    &&& split_part(false, r.code, bordered_inner_spec(r.content))
    &&& pane_areas_asked(r, area, digit_width)
}

/// The parts down a pane: the header, then the content block.
pub open spec fn pane_rows() -> Seq<Constraint> {
    seq![Constraint::Length(HEADER_HEIGHT), Constraint::Min(0)]
}

/// The columns of a pane's gutter: the line number and a space either side.
pub open spec fn gutter_columns_spec(digit_width: usize) -> u16 {
    (digit_width + 2) as u16
}

/// The parts across the inside of the content block: the gutter, then the code.
pub open spec fn pane_cols(digit_width: usize) -> Seq<Constraint> {
    seq![Constraint::Length(gutter_columns_spec(digit_width)), Constraint::Min(0)]
}

/// Which part of which split each area of a pane is: the header and the
/// content block are the parts of `pane_rows()` down the pane; the gutter
/// and the code are the parts of `pane_cols(digit_width)` across the inside
/// of the content block's border.
pub open spec fn pane_areas_asked(r: PaneAreas, area: Area, digit_width: usize) -> bool {
    exists|hc: Seq<Area>, gc: Seq<Area>|
        #![trigger solver_split(true, pane_rows(), 0, area, hc), solver_split(false, pane_cols(digit_width), 0, bordered_inner_spec(hc[1]), gc)]
        {
            &&& hc.len() == 2
            &&& solver_split(true, pane_rows(), 0, area, hc)
            &&& gc.len() == 2
            &&& solver_split(false, pane_cols(digit_width), 0, bordered_inner_spec(hc[1]), gc)
            &&& r.header == hc[0]
            &&& r.content == hc[1]
            &&& r.gutter == gc[0]
            &&& r.code == gc[1]
        }
}

/// The width of a pane's gutter for line numbers `digit_width` digits wide.
pub fn gutter_columns(digit_width: usize) -> (w: u16)
    requires
        digit_width <= 20,
    ensures
        w == gutter_columns_spec(digit_width),
        w == digit_width + 2,
{
    (digit_width + 2) as u16
}

/// Split a file pane into header, content block, gutter and code: down the
/// pane `pane_rows()`; across the inside of the content block
/// `pane_cols(digit_width)`.
pub fn pane_areas(area: Area, digit_width: usize) -> (r: PaneAreas)
    requires
        digit_width <= 20,
    ensures
        pane_areas_fit(r, area, digit_width),
{
    let mut hc_c: Vec<Constraint> = Vec::new();
    hc_c.push(Constraint::Length(HEADER_HEIGHT));
    hc_c.push(Constraint::Min(0));
    let hc = split_area(true, &hc_c, 0, area);
    proof {
        assert(hc_c@ =~= pane_rows());
    }
    let inner = bordered_inner(hc[1]);
    let gutter_width = gutter_columns(digit_width);
    let mut gc_c: Vec<Constraint> = Vec::new();
    gc_c.push(Constraint::Length(gutter_width));
    gc_c.push(Constraint::Min(0));
    let gc = split_area(false, &gc_c, 0, inner);
    proof {
        assert(gc_c@ =~= pane_cols(digit_width));
    }
    proof {
        assert(split_part(true, hc@[0], area));
        assert(split_part(true, hc@[1], area));
        assert(split_part(false, gc@[0], inner));
        assert(split_part(false, gc@[1], inner));
        assert(solver_split(false, pane_cols(digit_width), 0, bordered_inner_spec(hc@[1]), gc@));
    }
    PaneAreas { header: hc[0], content: hc[1], gutter: gc[0], code: gc[1] }
}

/// The header of a pane: the directory as the title, the file name, and
/// whether the unsaved-changes dot is shown.
pub struct PaneHeader {
    pub title: String,
    pub name: String,
    pub dirty: bool,
}

/// The title ` {dir} ` and the name ` {filename}` of a pane's header.
pub fn pane_header(dir: &str, filename: &str, dirty: bool) -> (h: PaneHeader)
    ensures
        h.title@ == seq![' '] + dir@ + seq![' '],
        h.name@ == seq![' '] + filename@,
        h.dirty == dirty,
{
    let mut title = String::new();
    title.push(' ');
    title.append(dir);
    title.push(' ');
    let mut name = String::new();
    name.push(' ');
    name.append(filename);
    proof {
        assert(title@ =~= seq![' '] + dir@ + seq![' ']);
        assert(name@ =~= seq![' '] + filename@);
    }
    PaneHeader { title, name, dirty }
}

} // verus!
