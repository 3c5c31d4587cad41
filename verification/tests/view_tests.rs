use weld::app::{App, Side};
use weld::cells::{side_cells, CodeCell, RowCells};
use weld::io::Content;
use weld::layout::Area;
use weld::model::{BlockKind, DiffBlock, DiffModel, DiffResult, DisplayRow, InlineDiff, InlineKind, InlineSegment};
use weld::overlay::{centered_rect, save_picker_modal, side_margin_percentages, write_error_modal};
use weld::view::{
    gutter_columns,
    code_text, digit_width, gutter_text, inline_diff_for_row, inline_padding, pane_areas, pane_header, plan_frame,
    row_inline_diff, row_shade, status_hint, Shade,
};
use weld::viewport::Viewport;

fn seg(text: &str, kind: InlineKind) -> InlineSegment {
    InlineSegment { text: text.to_string(), kind }
}

fn sample_diff() -> DiffResult {
    DiffResult {
        blocks: vec![
            DiffBlock { left_range: 0..1, right_range: 0..1, inline_diffs: vec![] },
            DiffBlock {
                left_range: 1..3,
                right_range: 1..3,
                inline_diffs: vec![
                    InlineDiff { left_segments: vec![seg("b", InlineKind::Changed)], right_segments: vec![seg("X", InlineKind::Changed)] },
                    InlineDiff { left_segments: vec![seg("c", InlineKind::Equal)], right_segments: vec![seg("c", InlineKind::Equal)] },
                ],
            },
        ],
    }
}

#[test]
fn inline_diff_lookup_uses_offset_in_block() {
    let diff = sample_diff();
    let row = DisplayRow { left_line: Some(2), right_line: Some(2), kind: BlockKind::Replace, block_index: 1 };
    let d = inline_diff_for_row(&row, Side::Left, &diff).unwrap();
    assert_eq!(d.left_segments[0].text, "c");
    let first = DisplayRow { left_line: Some(1), right_line: Some(1), kind: BlockKind::Replace, block_index: 1 };
    assert_eq!(inline_diff_for_row(&first, Side::Right, &diff).unwrap().right_segments[0].text, "X");
    let padding = DisplayRow { left_line: None, right_line: Some(1), kind: BlockKind::Replace, block_index: 1 };
    assert!(inline_diff_for_row(&padding, Side::Left, &diff).is_none());
    let before = DisplayRow { left_line: Some(0), right_line: Some(0), kind: BlockKind::Replace, block_index: 1 };
    assert!(inline_diff_for_row(&before, Side::Left, &diff).is_none());
    let past = DisplayRow { left_line: Some(5), right_line: Some(5), kind: BlockKind::Replace, block_index: 1 };
    assert!(inline_diff_for_row(&past, Side::Left, &diff).is_none());
    let equal = DisplayRow { left_line: Some(1), right_line: Some(1), kind: BlockKind::Equal, block_index: 1 };
    assert!(row_inline_diff(&equal, Side::Left, &diff).is_none());
    assert!(row_inline_diff(&first, Side::Left, &diff).is_some());
}

#[test]
fn gutter_and_code_cells() {
    assert_eq!(gutter_text(Some(6), 3, 5), "   7 ");
    assert_eq!(gutter_text(Some(1233), 2, 4), " 1234 ");
    assert_eq!(gutter_text(None, 3, 5), "     ");
    assert_eq!(code_text(Some("abc"), true, 6), " abc  ");
    assert_eq!(code_text(Some("abc"), false, 6), " abc");
    assert_eq!(code_text(None, true, 3), "   ");
    assert_eq!(code_text(Some("abcdef"), true, 3), " abcdef");
}

#[test]
fn digit_width_has_two_columns_at_least() {
    assert_eq!(digit_width(0), 2);
    assert_eq!(digit_width(9), 2);
    assert_eq!(digit_width(100), 3);
    assert_eq!(digit_width(12345), 5);
}

#[test]
fn shading_and_padding() {
    let eq = DisplayRow { left_line: Some(0), right_line: Some(0), kind: BlockKind::Equal, block_index: 0 };
    let ch = DisplayRow { left_line: Some(1), right_line: Some(1), kind: BlockKind::Replace, block_index: 1 };
    assert_eq!(row_shade(&eq, Some(0)), Shade::Plain);
    assert_eq!(row_shade(&ch, Some(1)), Shade::ChangedActive);
    assert_eq!(row_shade(&ch, Some(3)), Shade::Changed);
    assert_eq!(row_shade(&ch, None), Shade::Changed);
    assert_eq!(inline_padding(&vec![2, 3], 10), 4);
    assert_eq!(inline_padding(&vec![2, 7], 10), 0);
    assert_eq!(inline_padding(&vec![], 0), 0);
}

fn app_with(left: &[&str], right: &[&str], rows: Vec<DisplayRow>, changes: Vec<usize>) -> App {
    let model = DiffModel {
        left_content: Content::from_lines(left),
        right_content: Content::from_lines(right),
        left_dirty: false,
        right_dirty: false,
        diff: DiffResult { blocks: vec![] },
        display_rows: rows,
        change_count: changes.len(),
        change_block_indices: changes,
        current_block: 0,
        max_content_width: 2,
        tab_width: 4,
    };
    App::from_model(model, false)
}

fn texts(app: &App, live: bool) -> Vec<(String, bool)> {
    status_hint(app, live).into_iter().map(|h| (h.text, h.highlight)).collect()
}

#[test]
fn status_hint_lines() {
    let mut app = app_with(&["a"], &["a"], vec![], vec![]);
    assert_eq!(
        texts(&app, false),
        vec![(" Files are identical  [".to_string(), false), ("q → quit".to_string(), false), ("]".to_string(), false)]
    );
    app.model.change_block_indices = vec![1, 3, 5];
    app.model.change_count = 3;
    app.model.current_block = 1;
    app.model.right_dirty = true;
    app.input.pending_q = true;
    let t = texts(&app, true);
    assert_eq!(t[0], (" 2/3  [".to_string(), false));
    assert_eq!(t[1].0, "w → save");
    assert_eq!(t[3].0, "wq → save & quit");
    assert_eq!(t[5], ("q".to_string(), true));
    assert_eq!(t[6].0, "! → force quit");
    assert_eq!(t.len(), 8);
    app.model.left_dirty = true;
    let t = texts(&app, false);
    assert_eq!(t[1].0, "w → save…");
    assert_eq!(t[3], ("q".to_string(), false));
}

#[test]
fn frame_plan_sizes_viewport_and_marks_block() {
    let rows: Vec<DisplayRow> = (0..12)
        .map(|i| DisplayRow {
            left_line: Some(i),
            right_line: Some(i),
            kind: if i == 6 || i == 7 { BlockKind::Replace } else { BlockKind::Equal },
            block_index: if i < 6 { 0 } else if i < 8 { 1 } else { 2 },
        })
        .collect();
    let lines: Vec<&str> = vec!["x"; 12];
    let mut app = app_with(&lines, &lines, rows, vec![1]);
    app.needs_initial_scroll = true;
    app.viewport = Viewport { scroll_y: 40, scroll_x: 9, height: 0, width: 0 };
    let frame = Area { x: 0, y: 0, width: 81, height: 11 };
    let (areas, plan) = plan_frame(&mut app, frame);
    assert_eq!(areas.status.height, 1);
    assert_eq!(areas.left.height, 10);
    // 10 rows less header (3) and borders (2) = 5 code rows.
    assert_eq!(plan.inner_height, 5);
    assert_eq!(app.viewport.height, 5);
    assert_eq!(plan.digit_width, 2);
    assert_eq!(app.viewport.width, areas.left.width - 2 - 4);
    assert!(!app.needs_initial_scroll);
    // Block 1 starts at row 6; centered in 5 rows → 6 - 2 = 4 (max 12 - 5 = 7).
    assert_eq!(app.viewport.scroll_y, 4);
    assert_eq!(app.viewport.scroll_x, 0);
    assert_eq!(plan.active_block_index, Some(1));
    let gap_x = areas.left.x + areas.left.width;
    assert_eq!(plan.pill_cells, vec![(gap_x, 6), (gap_x, 7)]);
    assert!(plan.minimap.is_none());
}

#[test]
fn pane_split_and_header() {
    let p = pane_areas(Area { x: 0, y: 0, width: 40, height: 20 }, 2);
    assert_eq!(p.header, Area { x: 0, y: 0, width: 40, height: 3 });
    assert_eq!(p.content, Area { x: 0, y: 3, width: 40, height: 17 });
    assert_eq!(p.gutter, Area { x: 1, y: 4, width: 4, height: 15 });
    assert_eq!(p.code, Area { x: 5, y: 4, width: 34, height: 15 });
    let h = pane_header("~/src", "main.rs", true);
    assert_eq!(h.title, " ~/src ");
    assert_eq!(h.name, " main.rs");
    assert!(h.dirty);
}

#[test]
fn overlays_text_and_place() {
    let m = write_error_modal("right.txt", "permission denied");
    assert_eq!(m.title, " Save failed ");
    assert_eq!(m.lines, vec!["", "  right.txt", "", "  permission denied", "", "  Esc to dismiss"]);
    let p = save_picker_modal();
    assert_eq!(p.title, " Save which side? ");
    assert_eq!(p.lines.len(), 4);
    assert_eq!(side_margin_percentages(60), (20, 20));
    assert_eq!(side_margin_percentages(41), (29, 30));
    let r = centered_rect(60, 9, Area { x: 0, y: 0, width: 100, height: 29 });
    assert_eq!(r, Area { x: 20, y: 10, width: 60, height: 9 });
}

fn plain_text(c: &RowCells) -> String {
    match &c.code {
        CodeCell::Plain(t) => t.clone(),
        CodeCell::Runs(_) => panic!("expected one run"),
    }
}

fn runs_of(c: &RowCells) -> Vec<(String, bool)> {
    match &c.code {
        CodeCell::Runs(r) => r.iter().map(|s| (s.text.clone(), s.emphasized)).collect(),
        CodeCell::Plain(_) => panic!("expected runs"),
    }
}

#[test]
fn side_cells_one_per_row_in_order() {
    let diff = sample_diff();
    let lines = vec!["a".to_string(), "b".to_string(), "c".to_string()];
    let rows = vec![
        DisplayRow { left_line: Some(0), right_line: Some(0), kind: BlockKind::Equal, block_index: 0 },
        DisplayRow { left_line: Some(1), right_line: Some(1), kind: BlockKind::Replace, block_index: 1 },
        DisplayRow { left_line: None, right_line: Some(2), kind: BlockKind::Insert, block_index: 1 },
    ];
    let cells = side_cells(&rows, &diff, &lines, Side::Left, Some(1), 2, 4, 6);
    assert_eq!(cells.len(), 3);
    assert_eq!(cells[0].gutter, "  1 ");
    assert_eq!(cells[0].shade, Shade::Plain);
    assert_eq!(plain_text(&cells[0]), " a");
    assert_eq!(cells[1].gutter, "  2 ");
    assert_eq!(cells[1].shade, Shade::ChangedActive);
    assert_eq!(runs_of(&cells[1]), vec![(" ".to_string(), false), ("b".to_string(), true), ("    ".to_string(), false)]);
    assert_eq!(cells[2].gutter, "    ");
    assert_eq!(cells[2].shade, Shade::ChangedActive);
    assert_eq!(plain_text(&cells[2]), "      ");
}

#[test]
fn replaced_rows_pad_by_characters() {
    let diff = DiffResult {
        blocks: vec![DiffBlock {
            left_range: 0..1,
            right_range: 0..1,
            inline_diffs: vec![InlineDiff {
                left_segments: vec![seg("é", InlineKind::Equal), seg("ü", InlineKind::Changed)],
                right_segments: vec![seg("x", InlineKind::Changed)],
            }],
        }],
    };
    let lines = vec!["éü".to_string()];
    let rows = vec![DisplayRow { left_line: Some(0), right_line: Some(0), kind: BlockKind::Replace, block_index: 0 }];
    let cells = side_cells(&rows, &diff, &lines, Side::Left, None, 2, 4, 5);
    assert_eq!(cells[0].shade, Shade::Changed);
    let runs = runs_of(&cells[0]);
    assert_eq!(
        runs,
        vec![(" ".to_string(), false), ("é".to_string(), false), ("ü".to_string(), true), ("  ".to_string(), false)]
    );
    let drawn: String = runs.iter().map(|r| r.0.as_str()).collect();
    assert_eq!(drawn.chars().count(), 5);
    let right = side_cells(&rows, &diff, &lines, Side::Right, None, 2, 4, 5);
    assert_eq!(runs_of(&right[0]), vec![(" ".to_string(), false), ("x".to_string(), true), ("   ".to_string(), false)]);
}

#[test]
fn gutter_is_two_wider_than_the_digits() {
    assert_eq!(gutter_columns(2), 4);
    assert_eq!(gutter_columns(5), 7);
    let p = pane_areas(Area { x: 0, y: 0, width: 40, height: 20 }, 5);
    assert_eq!(p.gutter.width, 7);
}
