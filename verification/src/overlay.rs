use vstd::prelude::*;
use crate::layout::{Area, Constraint, split_area, split_part, inside, solver_split};

verus! {

/// Modal overlays that intercept input until dismissed.
#[derive(Debug, PartialEq)]
pub enum Overlay {
    /// Shown after a save failure, with the file path and the error message.
    /// Rendered as a centered modal; dismissed with `Esc`.
    WriteError { path: String, message: String },
    /// Shown when `w` is pressed with both sides dirty: save (l)eft, (r)ight,
    /// (a)ll, or Esc.
    SavePicker,
}

/// The text of a modal: its title and its lines.
pub struct ModalText {
    pub title: String,
    pub lines: Vec<String>,
}

pub open spec fn modal_view(m: ModalText) -> (Seq<char>, Seq<Seq<char>>) {
    (m.title@, m.lines.deep_view())
}

/// The text of the `WriteError` modal.
pub open spec fn write_error_text(path: Seq<char>, message: Seq<char>) -> (Seq<char>, Seq<Seq<char>>) {
    (
        " Save failed "@,
        seq![
            Seq::<char>::empty(),
            "  "@ + path,
            Seq::<char>::empty(),
            "  "@ + message,
            Seq::<char>::empty(),
            "  Esc to dismiss"@,
        ],
    )
}

/// The text of the `SavePicker` modal.
pub open spec fn save_picker_text() -> (Seq<char>, Seq<Seq<char>>) {
    (
        " Save which side? "@,
        seq![
            Seq::<char>::empty(),
            "  l → left   r → right   a → all"@,
            Seq::<char>::empty(),
            "  Esc to cancel"@,
        ],
    )
}

fn indented(s: &str) -> (r: String)
    ensures
        r@ == "  "@ + s@,
{
    let mut r = String::from_str("  ");
    r.append(s);
    r
}

/// Title and lines of the `WriteError` modal for `path` and `message`.
pub fn write_error_modal(path: &str, message: &str) -> (m: ModalText)
    ensures
        modal_view(m) == write_error_text(path@, message@),
{
    let mut lines: Vec<String> = Vec::new();
    lines.push(String::new());
    lines.push(indented(path));
    lines.push(String::new());
    lines.push(indented(message));
    lines.push(String::new());
    lines.push(String::from_str("  Esc to dismiss"));
    let m = ModalText { title: String::from_str(" Save failed "), lines };
    proof {
        assert(m.lines.deep_view() =~= write_error_text(path@, message@).1);
    }
    m
}

/// Title and lines of the `SavePicker` modal.
pub fn save_picker_modal() -> (m: ModalText)
    ensures
        modal_view(m) == save_picker_text(),
{
    let mut lines: Vec<String> = Vec::new();
    lines.push(String::new());
    lines.push(String::from_str("  l → left   r → right   a → all"));
    lines.push(String::new());
    lines.push(String::from_str("  Esc to cancel"));
    let m = ModalText { title: String::from_str(" Save which side? "), lines };
    proof {
        assert(m.lines.deep_view() =~= save_picker_text().1);
    }
    m
}

/// The percentages left and right of a centered part `percent_x` percent wide.
pub open spec fn side_margins(percent_x: u16) -> (u16, u16) {
    let left = ((100 - percent_x) / 2) as u16;
    (left, (100 - percent_x - left) as u16)
}

/// The percentages left and right of a centered part `percent_x` percent
/// wide: half the rest (rounded down) on the left, what remains on the right.
pub fn side_margin_percentages(percent_x: u16) -> (r: (u16, u16))
    requires
        percent_x <= 100,
    ensures
        r == side_margins(percent_x),
{
    let left = (100 - percent_x) / 2;
    let right = 100 - percent_x - left;
    (left, right)
}

/// The bands down `area` around a centered band `height` rows tall.
pub open spec fn centered_rows(height: u16) -> Seq<Constraint> {
    seq![Constraint::Min(0), Constraint::Length(height), Constraint::Min(0)]
}

/// The columns across the band around a centered part `percent_x` percent wide.
pub open spec fn centered_cols(percent_x: u16) -> Seq<Constraint> {
    seq![
        Constraint::Percentage(side_margins(percent_x).0),
        Constraint::Percentage(percent_x),
        Constraint::Percentage(side_margins(percent_x).1),
    ]
}

/// `r` is the centered rectangle of `area`: of the parts the layout solver
/// gives for `centered_rows(height)` down `area`, the middle band; of the
/// parts it gives for `centered_cols(percent_x)` across that band, the
/// middle one. It lies within `area`.
pub open spec fn centered_rect_fit(r: Area, percent_x: u16, height: u16, area: Area) -> bool {
    &&& exists|bands: Seq<Area>, cols: Seq<Area>|
        #![trigger solver_split(true, centered_rows(height), 0, area, bands), solver_split(false, centered_cols(percent_x), 0, bands[1], cols)]
        {
            &&& bands.len() == 3
            &&& solver_split(true, centered_rows(height), 0, area, bands)
            &&& cols.len() == 3
            &&& solver_split(false, centered_cols(percent_x), 0, bands[1], cols)
            &&& r == cols[1]
        }
    &&& inside(r, area)
}

/// Compute a centered rectangle: the middle of three bands down `area`
/// (`Min(0)`, `Length(height)`, `Min(0)`), and of that band the middle of
/// three columns (`side_margins(percent_x)` around `Percentage(percent_x)`).
/// Where the layout solver puts the parts is its own; what holds whatever it
/// returns is that the rectangle lies within `area`.
pub fn centered_rect(percent_x: u16, height: u16, area: Area) -> (r: Area)
    requires
        percent_x <= 100,
    ensures
        centered_rect_fit(r, percent_x, height, area),
{
    let mut rows: Vec<Constraint> = Vec::new();
    rows.push(Constraint::Min(0));
    rows.push(Constraint::Length(height));
    rows.push(Constraint::Min(0));
    let bands = split_area(true, &rows, 0, area);
    proof {
        assert(rows@ =~= seq![Constraint::Min(0), Constraint::Length(height), Constraint::Min(0)]);
    }
    let middle = bands[1];
    let (left, right) = side_margin_percentages(percent_x);
    let mut cols: Vec<Constraint> = Vec::new();
    cols.push(Constraint::Percentage(left));
    cols.push(Constraint::Percentage(percent_x));
    cols.push(Constraint::Percentage(right));
    let parts = split_area(false, &cols, 0, middle);
    proof {
        assert(cols@ =~= seq![Constraint::Percentage(left), Constraint::Percentage(percent_x), Constraint::Percentage(right)]);
    }
    proof {
        assert(split_part(true, bands@[1], area));
        assert(split_part(false, parts@[1], middle));
        assert(rows@ == centered_rows(height));
        assert(cols@ == centered_cols(percent_x));
        assert(solver_split(false, centered_cols(percent_x), 0, bands@[1], parts@));
    }
    parts[1]
}

/// Where the `WriteError` modal goes in `area`.
pub fn write_error_area(area: Area) -> (r: Area)
    ensures
        centered_rect_fit(r, 60, 9, area),
{
    centered_rect(60, 9, area)
}

/// Where the `SavePicker` modal goes in `area`.
pub fn save_picker_area(area: Area) -> (r: Area)
    ensures
        centered_rect_fit(r, 40, 7, area),
{
    centered_rect(40, 7, area)
}

} // verus!
