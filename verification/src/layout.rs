use vstd::prelude::*;
use ratatui::layout::{Direction, Layout, Rect};
use ratatui::widgets::{Block, Borders};

verus! {

/// A rectangle of terminal cells: its top-left corner and its size.
#[derive(Debug, Clone, Copy, PartialEq, Eq, Structural)]
pub struct Area {
    pub x: u16,
    pub y: u16,
    pub width: u16,
    pub height: u16,
}

/// How much room one part of a split asks for.
#[derive(Debug, Clone, Copy, PartialEq, Eq, Structural)]
pub enum Constraint {
    Min(u16),
    Length(u16),
    Percentage(u16),
}

/// `part` is one of the parts of a split of `area` (down the screen when
/// `vertical`, across it otherwise): it spans `area` across the split, and
/// along the split it starts and ends within `area`.
pub open spec fn split_part(vertical: bool, part: Area, area: Area) -> bool {
    if vertical {
        &&& part.x == area.x
        &&& part.width == area.width
        &&& area.y <= part.y
        &&& part.y + part.height <= area.y.saturating_add(area.height)
    } else {
        &&& part.y == area.y
        &&& part.height == area.height
        &&& area.x <= part.x
        &&& part.x + part.width <= area.x.saturating_add(area.width)
    }
}

/// `part` lies within `area` in both directions.
pub open spec fn inside(part: Area, area: Area) -> bool {
    &&& area.x <= part.x
    &&& part.x + part.width <= area.x.saturating_add(area.width)
    &&& area.y <= part.y
    &&& part.y + part.height <= area.y.saturating_add(area.height)
}

/// Holds of `parts` when ratatui's layout solver returned them for a split
/// of `area` (down the screen when `vertical`, across it otherwise) by
/// `constraints`, with `spacing` cells between neighbours. It records what
/// the solver was asked; which parts it returns is the solver's own, so
/// this is a relation and nothing more is known of it.
pub uninterp spec fn solver_split(
    vertical: bool,
    constraints: Seq<Constraint>,
    spacing: u16,
    area: Area,
    parts: Seq<Area>,
) -> bool;

/// Calls `ratatui::layout::Layout::split` (direction, constraints, spacing,
/// no margin) on `area`. Claimed, as its source builds the result: one part
/// per constraint, returned by a split with these arguments
/// (`solver_split`); each part keeps the area's position and size across the
/// split (`changes_to_rects` copies them); along the split each part starts
/// and ends within the area (the solver holds every variable between the
/// area's ends as a required constraint, and the rounding keeps them there).
/// Where exactly the parts start and how long they are is left to the
/// solver and not stated: for some mixes of constraints ratatui documents
/// the result as indeterminate, and the solver walks a hash map seeded per
/// process.
#[verifier::external_body]
pub(crate) fn split_area(vertical: bool, constraints: &Vec<Constraint>, spacing: u16, area: Area) -> (r: Vec<Area>)
    ensures
        r@.len() == constraints@.len(),
        solver_split(vertical, constraints@, spacing, area, r@),
        forall|i: int| 0 <= i < r@.len() ==> split_part(vertical, #[trigger] r@[i], area),
{
    let dir = if vertical { Direction::Vertical } else { Direction::Horizontal };
    let cs: Vec<ratatui::layout::Constraint> = constraints.iter().map(|c| match *c {
        Constraint::Min(v) => ratatui::layout::Constraint::Min(v),
        Constraint::Length(v) => ratatui::layout::Constraint::Length(v),
        Constraint::Percentage(v) => ratatui::layout::Constraint::Percentage(v),
    }).collect();
    let rects = Layout::new(dir, cs).spacing(spacing).split(Rect { x: area.x, y: area.y, width: area.width, height: area.height });
    rects.iter().map(|r| Area { x: r.x, y: r.y, width: r.width, height: r.height }).collect()
}

/// The cells inside a one-cell border on every side.
pub open spec fn bordered_inner_spec(a: Area) -> Area {
    let right = a.x.saturating_add(a.width);
    let bottom = a.y.saturating_add(a.height);
    Area {
        x: if a.x.saturating_add(1) < right { a.x.saturating_add(1) } else { right },
        y: if a.y.saturating_add(1) < bottom { a.y.saturating_add(1) } else { bottom },
        width: a.width.saturating_sub(2),
        height: a.height.saturating_sub(2),
    }
}

/// Calls `ratatui::widgets::Block::inner` for a block with borders on all
/// sides, no title and no padding. Claimed, as its source computes it: one
/// cell comes off each side (the corner not moving past the far edge), and
/// each size shrinks by two, not below zero.
#[verifier::external_body]
pub(crate) fn bordered_inner(a: Area) -> (r: Area)
    ensures
        r == bordered_inner_spec(a),
{
    let r = Block::default().borders(Borders::ALL).inner(Rect { x: a.x, y: a.y, width: a.width, height: a.height });
    Area { x: r.x, y: r.y, width: r.width, height: r.height }
}

} // verus!
