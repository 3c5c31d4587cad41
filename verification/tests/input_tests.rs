use std::time::Instant;

use weld::app::{App, Side};
use weld::input::{chord_expired_after, finish_save, handle_key, handle_key_at, scroll_to_current_block, Edit, Effect, KeyCode, KeyPress};
use weld::io::Content;
use weld::model::{BlockKind, DiffBlock, DiffModel, DiffResult, DisplayRow};
use weld::overlay::Overlay;
use weld::viewport::Viewport;

fn key(code: KeyCode) -> KeyPress {
    KeyPress { code, ctrl: false }
}

fn ch(c: char) -> KeyPress {
    key(KeyCode::Char(c))
}

fn ctrl(c: char) -> KeyPress {
    KeyPress { code: KeyCode::Char(c), ctrl: true }
}

/// The diff model of two files with the same number of lines, compared line
/// by line: runs of equal lines form equal blocks, runs of differing lines
/// replace blocks.
fn aligned_model(left: &[&str], right: &[&str]) -> DiffModel {
    assert_eq!(left.len(), right.len());
    let mut blocks: Vec<DiffBlock> = Vec::new();
    let mut kinds: Vec<BlockKind> = Vec::new();
    let mut rows: Vec<DisplayRow> = Vec::new();
    let mut i = 0;
    while i < left.len() {
        let same = left[i] == right[i];
        let start = i;
        while i < left.len() && (left[i] == right[i]) == same {
            i += 1;
        }
        let kind = if same { BlockKind::Equal } else { BlockKind::Replace };
        let index = blocks.len();
        blocks.push(DiffBlock { left_range: start..i, right_range: start..i, inline_diffs: Vec::new() });
        kinds.push(kind);
        for l in start..i {
            rows.push(DisplayRow { left_line: Some(l), right_line: Some(l), kind, block_index: index });
        }
    }
    let change_block_indices: Vec<usize> =
        (0..kinds.len()).filter(|&b| kinds[b] != BlockKind::Equal).collect();
    let max_content_width = left.iter().chain(right.iter()).map(|l| l.chars().count() + 1).max().unwrap_or(0);
    DiffModel {
        left_content: Content::from_lines(left),
        right_content: Content::from_lines(right),
        left_dirty: false,
        right_dirty: false,
        diff: DiffResult { blocks },
        display_rows: rows,
        change_count: change_block_indices.len(),
        change_block_indices,
        current_block: 0,
        max_content_width,
        tab_width: 4,
    }
}

fn test_app(left_lines: &[&str], right_lines: &[&str], viewport: (u16, u16)) -> App {
    let mut app = App::from_model(aligned_model(left_lines, right_lines), false);
    app.viewport = Viewport { scroll_y: 0, scroll_x: 0, height: viewport.1, width: viewport.0 };
    app
}

/// An app whose contents carry paths, as if loaded from `left.txt` and `right.txt`.
fn test_app_with_files(left_lines: &[&str], right_lines: &[&str]) -> App {
    let mut app = test_app(left_lines, right_lines, (40, 10));
    app.model.left_content.path = "/tmp/weld-test/left.txt".to_string();
    app.model.right_content.path = "/tmp/weld-test/right.txt".to_string();
    app.left_filename = "left.txt".to_string();
    app.right_filename = "right.txt".to_string();
    app
}

/// Handle a key and carry out the saves it asks for, each write succeeding.
fn press(app: &mut App, k: KeyPress) -> Effect {
    let mut eff = handle_key(app, k);
    while let Effect::Save { side, then_rest } = eff {
        eff = finish_save(app, side, Ok(()), then_rest);
    }
    eff
}

#[test]
fn j_caps_at_viewport_bottom() {
    let lines = vec!["line"; 20];
    let mut app = test_app(&lines, &lines, (40, 10));
    for _ in 0..25 {
        press(&mut app, ch('j'));
    }
    // 20 identical lines = 20 display rows. max scroll = 20 - 10 = 10
    assert_eq!(app.viewport.scroll_y, 10);
}

#[test]
fn j_scrolls_to_max() {
    let lines = vec!["content"; 50];
    let mut app = test_app(&lines, &lines, (40, 20));
    for _ in 0..100 {
        press(&mut app, ch('j'));
    }
    assert_eq!(app.viewport.scroll_y, app.viewport.scroll_y_max(50));
}

#[test]
fn dollar_uses_global_max_across_both_files() {
    let mut left: Vec<&str> = vec!["short"; 51];
    let long = &"a".repeat(200);
    left[50] = long;
    let mut app = test_app(&left, &["short"; 51], (40, 10));
    // Lengths differ on line 50 only; the widest line is 200 + leading space.
    assert_eq!(app.model.max_content_width, 201);
    press(&mut app, ch('$'));
    // Global max = 201 (200 + leading space), viewport = 40 → scroll_x = 161
    assert_eq!(app.viewport.scroll_x, 161, "$ should use global max even if long line is off-screen");
}

#[test]
fn dollar_adapts_when_scrolled_to_long_line() {
    let long = "x".repeat(100);
    let mut lines: Vec<String> = vec!["short".to_string(); 20];
    lines[15] = long;
    let line_refs: Vec<&str> = lines.iter().map(|s| s.as_str()).collect();
    let mut app = test_app(&line_refs, &line_refs, (40, 10));
    app.viewport.scroll_y = 10;
    press(&mut app, ch('$'));
    // max_x = 101 (100 + leading space), viewport_width = 40 → scroll_x = 61
    assert_eq!(app.viewport.scroll_x, 61, "$ should use the long line now visible");
}

#[test]
fn gg_jumps_to_first_block() {
    let left = vec!["a", "b", "c", "d", "e", "f", "g", "h"];
    let right = vec!["a", "X", "c", "d", "e", "Y", "g", "h"];
    let mut app = test_app(&left, &right, (40, 10));
    app.model.current_block = 1;
    press(&mut app, ch('g'));
    press(&mut app, ch('g'));
    assert_eq!(app.model.current_block, 0);
}

#[test]
fn shift_g_jumps_to_last_block() {
    let left = vec!["a", "b", "c", "d", "e", "f", "g", "h"];
    let right = vec!["a", "X", "c", "d", "e", "Y", "g", "h"];
    let mut app = test_app(&left, &right, (40, 10));
    assert_eq!(app.model.current_block, 0);
    press(&mut app, ch('G'));
    assert_eq!(app.model.current_block, app.model.change_block_indices.len() - 1);
}

#[test]
fn l_and_dollar_agree_on_max_scroll() {
    let long = "x".repeat(100);
    let mut app = test_app(&[&long], &[&long], (40, 10));
    press(&mut app, ch('$'));
    let dollar_pos = app.viewport.scroll_x;
    app.viewport.scroll_x = 0;
    for _ in 0..200 {
        press(&mut app, ch('l'));
    }
    assert_eq!(app.viewport.scroll_x, dollar_pos, "l max should equal $ position");
}

#[test]
fn g_then_non_g_does_not_jump() {
    let lines = vec!["line"; 50];
    let mut app = test_app(&lines, &lines, (40, 10));
    app.viewport.scroll_y = 30;
    press(&mut app, ch('g'));
    press(&mut app, ch('j'));
    assert_eq!(app.viewport.scroll_y, 31, "g then j should just move down");
}

#[test]
fn shift_j_advances_to_next_block() {
    let left = vec!["a", "b", "c", "d", "e", "f", "g", "h"];
    let right = vec!["a", "X", "c", "d", "e", "Y", "g", "h"];
    let mut app = test_app(&left, &right, (40, 10));
    assert_eq!(app.model.current_block, 0);
    press(&mut app, ch('J'));
    assert_eq!(app.model.current_block, 1);
}

#[test]
fn shift_k_retreats_to_previous_block() {
    let left = vec!["a", "b", "c", "d", "e", "f", "g", "h"];
    let right = vec!["a", "X", "c", "d", "e", "Y", "g", "h"];
    let mut app = test_app(&left, &right, (40, 10));
    app.model.current_block = 1;
    press(&mut app, ch('K'));
    assert_eq!(app.model.current_block, 0);
}

#[test]
fn shift_j_clamps_at_last_block() {
    let left = vec!["a", "b"];
    let right = vec!["a", "X"];
    let mut app = test_app(&left, &right, (40, 10));
    press(&mut app, ch('J'));
    press(&mut app, ch('J'));
    assert_eq!(app.model.current_block, 0);
}

#[test]
fn shift_k_clamps_at_first_block() {
    let left = vec!["a", "b"];
    let right = vec!["a", "X"];
    let mut app = test_app(&left, &right, (40, 10));
    press(&mut app, ch('K'));
    assert_eq!(app.model.current_block, 0);
}

#[test]
fn scroll_to_block_centers_vertically() {
    // 30 equal lines, then a change, then more equal lines
    let mut left: Vec<&str> = vec!["same"; 30];
    left.push("old");
    left.extend(vec!["same"; 20]);
    let mut right: Vec<&str> = vec!["same"; 30];
    right.push("new");
    right.extend(vec!["same"; 20]);
    let mut app = test_app(&left, &right, (40, 10));
    scroll_to_current_block(&mut app);
    // Block starts at display row 30. Center in viewport of height 10 → scroll_y = 30 - 5 = 25
    assert_eq!(app.viewport.scroll_y, 25);
}

#[test]
fn copy_keys_ask_for_model_edits() {
    let left = vec!["a", "b", "c"];
    let right = vec!["a", "X", "c"];
    let mut app = test_app(&left, &right, (40, 10));
    assert_eq!(press(&mut app, ch('L')), Effect::Apply(Edit::CopyLeftToRight));
    assert_eq!(press(&mut app, ch('H')), Effect::Apply(Edit::CopyRightToLeft));
    assert_eq!(press(&mut app, ch('u')), Effect::Apply(Edit::Undo));
    assert_eq!(press(&mut app, ctrl('r')), Effect::Apply(Edit::Redo));
    assert_eq!(press(&mut app, ch('r')), Effect::Done);
    assert!(!app.model.left_dirty && !app.model.right_dirty);
}

#[test]
fn q_clean_quits_immediately() {
    let left = vec!["a", "b"];
    let right = vec!["a", "b"];
    let mut app = test_app(&left, &right, (40, 10));
    press(&mut app, ch('q'));
    assert!(!app.running);
    assert!(app.overlay.is_none());
}

#[test]
fn q_dirty_sets_pending_q() {
    let left = vec!["a", "b"];
    let right = vec!["a", "X"];
    let mut app = test_app(&left, &right, (40, 10));
    app.model.right_dirty = true; // as after copying left → right
    press(&mut app, ch('q'));
    assert!(app.running, "q on dirty should not quit immediately");
    assert!(app.input.pending_q, "q on dirty should set pending_q");
}

#[test]
fn q_bang_force_quits() {
    let left = vec!["a", "b"];
    let right = vec!["a", "X"];
    let mut app = test_app(&left, &right, (40, 10));
    app.model.right_dirty = true;
    press(&mut app, ch('q')); // pending
    press(&mut app, ch('!')); // complete q!
    assert!(!app.running);
    assert!(app.model.right_dirty, "force quit preserves dirty flag (no save)");
}

#[test]
fn q_bang_after_timeout_is_dropped() {
    let left = vec!["a", "b"];
    let right = vec!["a", "X"];
    let mut app = test_app(&left, &right, (40, 10));
    app.model.right_dirty = true;
    press(&mut app, ch('q'));
    // The chord has expired: `!` does nothing and the app keeps running.
    handle_key_at(&mut app, ch('!'), true, Instant::now());
    assert!(app.running);
    assert!(!app.input.pending_q);
}

#[test]
fn q_then_wrong_key_clears_pending_and_processes_key() {
    let left = vec!["line"; 20];
    let right = vec!["line"; 20];
    let mut app = test_app(&left, &right, (40, 10));
    app.model.left_dirty = true;
    press(&mut app, ch('q'));
    assert!(app.input.pending_q);
    press(&mut app, ch('j'));
    assert!(!app.input.pending_q, "pending should be cleared");
    assert!(app.running, "should not have quit");
    assert_eq!(app.viewport.scroll_y, 1, "j should have scrolled");
}

#[test]
fn write_error_esc_dismisses() {
    let left = vec!["a", "b"];
    let right = vec!["a", "X"];
    let mut app = test_app(&left, &right, (40, 10));
    app.overlay = Some(Overlay::WriteError { path: "right.txt".into(), message: "permission denied".into() });
    press(&mut app, key(KeyCode::Esc));
    assert!(app.overlay.is_none());
    assert!(app.running);
}

#[test]
fn w_saves_when_one_side_dirty() {
    let left = vec!["a", "b"];
    let right = vec!["a", "X"];
    let mut app = test_app_with_files(&left, &right);
    let right_path = app.model.right_content.path().to_string();
    app.model.right_dirty = true;
    assert_eq!(handle_key(&mut app, ch('w')), Effect::Save { side: Side::Right, then_rest: true });
    assert_eq!(finish_save(&mut app, Side::Right, Ok(()), true), Effect::Done);
    assert!(!app.model.right_dirty, "w should clear dirty flag");
    assert_eq!(app.saved_files, vec![right_path]);
    assert!(app.overlay.is_none());
}

#[test]
fn w_noop_when_clean() {
    let left = vec!["a", "b"];
    let right = vec!["a", "b"];
    let mut app = test_app_with_files(&left, &right);
    assert_eq!(press(&mut app, ch('w')), Effect::Done);
    assert!(app.saved_files.is_empty());
    assert!(app.overlay.is_none());
}

#[test]
fn w_opens_picker_when_both_dirty() {
    let left = vec!["a", "b"];
    let right = vec!["a", "X"];
    let mut app = test_app_with_files(&left, &right);
    app.model.left_dirty = true;
    app.model.right_dirty = true;
    press(&mut app, ch('w'));
    assert!(matches!(app.overlay, Some(Overlay::SavePicker)), "both-dirty w should open SavePicker");
    assert!(app.saved_files.is_empty(), "nothing saved yet");
}

#[test]
fn save_picker_l_saves_left() {
    let left = vec!["a", "X"];
    let right = vec!["a", "Y"];
    let mut app = test_app_with_files(&left, &right);
    let left_path = app.model.left_content.path().to_string();
    app.model.left_dirty = true;
    app.model.right_dirty = true;
    app.overlay = Some(Overlay::SavePicker);
    press(&mut app, ch('l'));
    assert!(!app.model.left_dirty, "l should save left");
    assert!(app.model.right_dirty, "l should not save right");
    assert_eq!(app.saved_files, vec![left_path]);
    assert!(app.overlay.is_none(), "picker should dismiss");
}

#[test]
fn save_picker_r_saves_right() {
    let left = vec!["a", "X"];
    let right = vec!["a", "Y"];
    let mut app = test_app_with_files(&left, &right);
    let right_path = app.model.right_content.path().to_string();
    app.model.left_dirty = true;
    app.model.right_dirty = true;
    app.overlay = Some(Overlay::SavePicker);
    press(&mut app, ch('r'));
    assert!(app.model.left_dirty, "r should not save left");
    assert!(!app.model.right_dirty, "r should save right");
    assert_eq!(app.saved_files, vec![right_path]);
    assert!(app.overlay.is_none());
}

#[test]
fn save_picker_a_saves_all() {
    let left = vec!["a", "X"];
    let right = vec!["a", "Y"];
    let mut app = test_app_with_files(&left, &right);
    app.model.left_dirty = true;
    app.model.right_dirty = true;
    app.overlay = Some(Overlay::SavePicker);
    press(&mut app, ch('a'));
    assert!(!app.model.left_dirty, "a should save left");
    assert!(!app.model.right_dirty, "a should save right");
    assert_eq!(app.saved_files.len(), 2);
    assert!(app.overlay.is_none());
}

#[test]
fn save_picker_esc_dismisses() {
    let left = vec!["a", "X"];
    let right = vec!["a", "Y"];
    let mut app = test_app_with_files(&left, &right);
    app.model.left_dirty = true;
    app.model.right_dirty = true;
    app.overlay = Some(Overlay::SavePicker);
    press(&mut app, key(KeyCode::Esc));
    assert!(app.overlay.is_none(), "Esc should dismiss picker");
    assert!(app.model.left_dirty, "Esc should not save");
    assert!(app.model.right_dirty, "Esc should not save");
}

#[test]
fn save_picker_swallows_other_keys() {
    let left = vec!["a", "X"];
    let right = vec!["a", "Y"];
    let mut app = test_app_with_files(&left, &right);
    app.model.left_dirty = true;
    app.model.right_dirty = true;
    app.overlay = Some(Overlay::SavePicker);
    let before = app.viewport.scroll_y;
    press(&mut app, ch('j'));
    assert!(matches!(app.overlay, Some(Overlay::SavePicker)));
    assert_eq!(app.viewport.scroll_y, before, "j must not scroll in picker");
}

#[test]
fn w_shows_error_overlay_on_write_failure() {
    let left = vec!["a", "b"];
    let right = vec!["a", "X"];
    let mut app = test_app_with_files(&left, &right);
    app.model.right_dirty = true;
    let eff = handle_key(&mut app, ch('w'));
    assert_eq!(eff, Effect::Save { side: Side::Right, then_rest: true });
    let after = finish_save(&mut app, Side::Right, Err("Permission denied (os error 13)".to_string()), true);
    assert_eq!(after, Effect::Done);
    assert!(matches!(app.overlay, Some(Overlay::WriteError { .. })), "write failure should show error overlay");
    assert!(app.model.right_dirty, "dirty flag preserved on failure");
    assert_eq!(
        app.overlay,
        Some(Overlay::WriteError {
            path: "/tmp/weld-test/right.txt".to_string(),
            message: "Permission denied (os error 13)".to_string()
        })
    );
}

#[test]
fn save_all_stops_at_first_failure() {
    let left = vec!["a", "X"];
    let right = vec!["a", "Y"];
    let mut app = test_app_with_files(&left, &right);
    app.model.left_dirty = true;
    app.model.right_dirty = true;
    app.overlay = Some(Overlay::SavePicker);
    let eff = handle_key(&mut app, ch('a'));
    assert_eq!(eff, Effect::Save { side: Side::Left, then_rest: true });
    let next = finish_save(&mut app, Side::Left, Err("disk full".to_string()), true);
    assert_eq!(next, Effect::Done, "the right side is not attempted");
    assert!(app.model.left_dirty && app.model.right_dirty);
    assert!(app.saved_files.is_empty());
}

#[test]
fn wq_composition_saves_then_quits() {
    let left = vec!["a", "b"];
    let right = vec!["a", "X"];
    let mut app = test_app_with_files(&left, &right);
    let right_path = app.model.right_content.path().to_string();
    app.model.right_dirty = true;
    press(&mut app, ch('w')); // save
    press(&mut app, ch('q')); // quit (now clean)
    assert!(!app.running, "q after w should quit");
    assert!(!app.model.right_dirty);
    assert_eq!(app.saved_files, vec![right_path]);
}

#[test]
fn write_error_overlay_swallows_normal_keys() {
    let left = vec!["a", "b", "c"];
    let right = vec!["a", "X", "c"];
    let mut app = test_app(&left, &right, (40, 10));
    app.overlay = Some(Overlay::WriteError { path: "right.txt".into(), message: "permission denied".into() });
    let before = app.viewport.scroll_y;
    press(&mut app, ch('j'));
    assert_eq!(app.viewport.scroll_y, before, "j must not scroll in overlay");
    assert!(matches!(app.overlay, Some(Overlay::WriteError { .. })));
}

#[test]
fn scrolling_keys_move_within_limits() {
    let lines = vec!["abcdefghijklmnopqrstuvwxyz"; 30];
    let mut app = test_app(&lines, &lines, (10, 10));
    // widest line 26 + 1 = 27 columns, 10 shown → at most 17.
    press(&mut app, key(KeyCode::End));
    assert_eq!(app.viewport.scroll_x, 17);
    press(&mut app, key(KeyCode::Left));
    assert_eq!(app.viewport.scroll_x, 15);
    press(&mut app, ch('0'));
    assert_eq!(app.viewport.scroll_x, 0);
    press(&mut app, key(KeyCode::Right));
    assert_eq!(app.viewport.scroll_x, 2);
    press(&mut app, ch('h'));
    press(&mut app, ch('h'));
    assert_eq!(app.viewport.scroll_x, 0);
    press(&mut app, key(KeyCode::Down));
    press(&mut app, key(KeyCode::Down));
    press(&mut app, key(KeyCode::Up));
    assert_eq!(app.viewport.scroll_y, 1);
    press(&mut app, ch('k'));
    press(&mut app, ch('k'));
    assert_eq!(app.viewport.scroll_y, 0);
}

#[test]
fn chord_times_out_after_half_a_second() {
    assert!(!chord_expired_after(Some(0)));
    assert!(!chord_expired_after(Some(500_000_000)));
    assert!(chord_expired_after(Some(500_000_001)));
    assert!(chord_expired_after(None));
}

#[test]
fn q_bang_quits_only_within_the_timeout() {
    let left = vec!["a", "b"];
    let right = vec!["a", "X"];
    let mut app = test_app(&left, &right, (40, 10));
    app.model.right_dirty = true;
    press(&mut app, ch('q'));
    handle_key_at(&mut app, ch('!'), chord_expired_after(Some(600_000_000)), Instant::now());
    assert!(app.running);
    assert!(!app.input.pending_q);
    press(&mut app, ch('q'));
    handle_key_at(&mut app, ch('!'), chord_expired_after(Some(100_000_000)), Instant::now());
    assert!(!app.running);
    assert!(app.model.right_dirty);
}
