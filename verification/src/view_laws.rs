use vstd::prelude::*;
use crate::app::App;
use crate::model::{BlockKind, DisplayRow, DiffResult};
use crate::layout::Area;
use crate::view::{
    FrameAreas, FramePlan, Shade, frame_plan_fits, pill_at, pill_cells_spec, row_shade_spec, status_hint_spec,
    hint_prefix,
};
use crate::cells::{RowCells, row_cells_spec};

verus! {

/// A row is drawn plain exactly when it shows unchanged lines: every
/// inserted, deleted or replaced row gets a diff tint, the stronger one
/// exactly when its block is the active one.
pub proof fn law_row_shade(row: DisplayRow, active: Option<usize>)
    ensures
        (row_shade_spec(row, active) == Shade::Plain) <==> row.kind == BlockKind::Equal,
        (row_shade_spec(row, active) == Shade::ChangedActive) <==> (row.kind != BlockKind::Equal
            && active == Some(row.block_index)),
        (row_shade_spec(row, active) == Shade::Changed) <==> (row.kind != BlockKind::Equal && active
            != Some(row.block_index)),
{
}

/// The same of the cells that `side_cells` gives a row: its shade is plain
/// exactly when the row is an unchanged one, and the active tint marks
/// exactly the changed rows of the active block.
pub proof fn law_cells_shade(
    c: RowCells,
    row: DisplayRow,
    diff: DiffResult,
    lines: Seq<String>,
    side: crate::app::Side,
    active: Option<usize>,
    digit_width: usize,
    gutter_width: u16,
    width: usize,
)
    requires
        row_cells_spec(c, row, diff, lines, side, active, digit_width, gutter_width, width),
    ensures
        (c.shade == Shade::Plain) <==> row.kind == BlockKind::Equal,
        (c.shade == Shade::ChangedActive) <==> (row.kind != BlockKind::Equal && active == Some(
            row.block_index,
        )),
{
    law_row_shade(row, active);
}

/// `cell` is the gap cell beside an on-screen display row of block `b`.
pub open spec fn beside_row_of(
    cell: (u16, u16),
    rows: Seq<DisplayRow>,
    b: usize,
    scroll_y: u16,
    inner_height: u16,
    left: Area,
) -> bool {
    exists|i: int|
        #![trigger pill_at(i, scroll_y, left)]
        {
            &&& 0 <= i < rows.len()
            &&& rows[i].block_index == b
            &&& scroll_y <= i < scroll_y + inner_height
            &&& cell == pill_at(i, scroll_y, left)
        }
}

proof fn lemma_pill_cells(
    rows: Seq<DisplayRow>,
    n: int,
    b: usize,
    scroll_y: u16,
    inner_height: u16,
    left: Area,
    frame: Area,
)
    requires
        0 <= n <= rows.len(),
    ensures
        ({
            let cells = pill_cells_spec(rows, n, b, scroll_y, inner_height, left, frame);
            &&& forall|k: int|
                0 <= k < cells.len() ==> beside_row_of(#[trigger] cells[k], rows, b, scroll_y, inner_height, left)
            &&& forall|i: int|
                #![trigger pill_at(i, scroll_y, left)]
                0 <= i < n && rows[i].block_index == b && scroll_y <= i < scroll_y + inner_height
                    && pill_at(i, scroll_y, left).0 < frame.width && pill_at(i, scroll_y, left).1 < (
                frame.y + frame.height) % 65536 ==> cells.contains(pill_at(i, scroll_y, left))
        }),
    decreases n,
{
    if n > 0 {
        lemma_pill_cells(rows, n - 1, b, scroll_y, inner_height, left, frame);
        let prev = pill_cells_spec(rows, n - 1, b, scroll_y, inner_height, left, frame);
        let cells = pill_cells_spec(rows, n, b, scroll_y, inner_height, left, frame);
        assert forall|k: int| 0 <= k < cells.len() implies beside_row_of(
            #[trigger] cells[k],
            rows,
            b,
            scroll_y,
            inner_height,
            left,
        ) by {
            if k < prev.len() {
                assert(cells[k] == prev[k]);
                assert(beside_row_of(prev[k], rows, b, scroll_y, inner_height, left));
            } else {
                assert(cells[k] == pill_at(n - 1, scroll_y, left));
            }
        }
        assert forall|i: int|
            #![trigger pill_at(i, scroll_y, left)]
            0 <= i < n && rows[i].block_index == b && scroll_y <= i < scroll_y + inner_height
                && pill_at(i, scroll_y, left).0 < frame.width && pill_at(i, scroll_y, left).1 < (
            frame.y + frame.height) % 65536 implies cells.contains(pill_at(i, scroll_y, left)) by {
            if i < n - 1 {
                assert(prev.contains(pill_at(i, scroll_y, left)));
                let k = choose|k: int| 0 <= k < prev.len() && prev[k] == pill_at(i, scroll_y, left);
                assert(cells[k] == prev[k]);
            } else {
                assert(cells[cells.len() - 1] == pill_at(i, scroll_y, left));
            }
        }
    }
}

/// The gap marks the active change block and nothing else: each marked cell
/// lies beside an on-screen display row of the active block, and each
/// on-screen row of that block whose cell lies within the frame is marked.
/// Without an active block nothing is marked.
pub proof fn law_gap_marks_active_block(
    plan: FramePlan,
    pre: App,
    post: App,
    frame: Area,
    areas: FrameAreas,
)
    requires
        frame_plan_fits(plan, pre, post, frame, areas),
    ensures
        plan.active_block_index is None ==> plan.pill_cells@.len() == 0,
        forall|k: int|
            0 <= k < plan.pill_cells@.len() ==> (plan.active_block_index matches Some(b)
                && beside_row_of(
                #[trigger] plan.pill_cells@[k],
                post.model.display_rows@,
                b,
                post.viewport.scroll_y,
                plan.inner_height,
                areas.left,
            )),
        forall|i: int|
            #![trigger pill_at(i, post.viewport.scroll_y, areas.left)]
            0 <= i < post.model.display_rows@.len() && plan.active_block_index == Some(
                post.model.display_rows@[i].block_index,
            ) && post.viewport.scroll_y <= i < post.viewport.scroll_y + plan.inner_height && pill_at(
                i,
                post.viewport.scroll_y,
                areas.left,
            ).0 < frame.width && pill_at(i, post.viewport.scroll_y, areas.left).1 < (frame.y
                + frame.height) % 65536 ==> plan.pill_cells@.contains(
                pill_at(i, post.viewport.scroll_y, areas.left),
            ),
{
    if let Some(b) = plan.active_block_index {
        lemma_pill_cells(
            post.model.display_rows@,
            post.model.display_rows@.len() as int,
            b,
            post.viewport.scroll_y,
            plan.inner_height,
            areas.left,
            frame,
        );
    }
}

/// The key hints follow the unsaved changes: while either side is dirty
/// they offer saving and `q!` (force quit) and never plain `q → quit`;
/// with both sides clean they offer `q → quit` and no force quit.
pub proof fn law_status_hint_follows_dirty(a: App, live: bool)
    ensures
        (a.model.left_dirty || a.model.right_dirty) ==> status_hint_spec(a, live).contains(
            ("! → force quit"@, false),
        ),
        (a.model.left_dirty || a.model.right_dirty) ==> !status_hint_spec(a, live).contains(
            ("q → quit"@, false),
        ),
        (a.model.left_dirty && a.model.right_dirty) ==> status_hint_spec(a, live).contains(
            ("w → save…"@, false),
        ),
        (a.model.left_dirty != a.model.right_dirty) ==> status_hint_spec(a, live).contains(
            ("w → save"@, false),
        ),
        !(a.model.left_dirty || a.model.right_dirty) ==> status_hint_spec(a, live).contains(
            ("q → quit"@, false),
        ),
        !(a.model.left_dirty || a.model.right_dirty) ==> !status_hint_spec(a, live).contains(
            ("! → force quit"@, false),
        ),
{
    reveal_strlit("! → force quit");
    reveal_strlit("q → quit");
    reveal_strlit("w → save…");
    reveal_strlit("w → save");
    reveal_strlit(" | ");
    reveal_strlit("wq → save & quit");
    reveal_strlit("q");
    reveal_strlit("]");
    reveal_strlit(" Files are identical  [");
    let s = status_hint_spec(a, live);
    let p = hint_prefix(a);
    assert(p.len() > 0 && p[0] == ' ');
    let fq = ("! → force quit"@, false);
    let qq = ("q → quit"@, false);
    if a.model.left_dirty || a.model.right_dirty {
        if a.model.left_dirty && a.model.right_dirty {
            assert(s[1] == ("w → save…"@, false));
            assert(s[4] == fq);
        } else {
            assert(s[1] == ("w → save"@, false));
            assert(s[6] == fq);
        }
        assert forall|i: int| 0 <= i < s.len() implies s[i] != qq by {
            if i == 0 {
                assert(s[i].0[0] != qq.0[0]);
            } else if s[i].0.len() > 0 {
                assert(s[i].0[0] != qq.0[0] || s[i].0.len() != qq.0.len());
            }
        }
    } else {
        assert(s[1] == qq);
        assert forall|i: int| 0 <= i < s.len() implies s[i] != fq by {
            assert(s[i].0[0] != fq.0[0]);
        }
    }
}

} // verus!
