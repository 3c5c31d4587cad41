use vstd::prelude::*;
use std::time::Instant;
use crate::app::{App, InputState, Side, CHORD_TIMEOUT_NANOS};
use crate::overlay::Overlay;
use crate::model::DisplayRow;
use crate::viewport::{Viewport, y_max, min_u16};

verus! {

/// The keys the tool tells apart.
#[derive(Debug, Clone, Copy, PartialEq, Eq, Structural)]
pub enum KeyCode {
    Char(char),
    Up,
    Down,
    Left,
    Right,
    Home,
    End,
    Esc,
    Other,
}

/// A key press: the key and whether Ctrl was held.
#[derive(Debug, Clone, Copy, PartialEq, Eq, Structural)]
pub struct KeyPress {
    pub code: KeyCode,
    pub ctrl: bool,
}

/// An edit of the diff model that a key asks for.
#[derive(Debug, Clone, Copy, PartialEq, Eq, Structural)]
pub enum Edit {
    CopyLeftToRight,
    CopyRightToLeft,
    Undo,
    Redo,
}

/// What the caller has to do once a key (or a save) has been handled.
#[derive(Debug, Clone, Copy, PartialEq, Eq, Structural)]
pub enum Effect {
    /// Nothing more.
    Done,
    /// Apply the edit to the diff model, then call `scroll_to_current_block`.
    Apply(Edit),
    /// Write the side's `saved_text()` to its path and report the outcome to
    /// `finish_save`, passing `then_rest` on.
    Save { side: Side, then_rest: bool },
}

/// What a key does in normal mode once chords are resolved.
#[derive(Debug, Clone, Copy, PartialEq, Eq, Structural)]
pub enum Action {
    Quit,
    ArmQuit,
    ScrollDown,
    ScrollUp,
    NextBlock,
    PrevBlock,
    ScrollRight,
    ScrollLeft,
    ScrollToLeft,
    ScrollToRight,
    ArmG,
    LastBlock,
    Write,
    Modify(Edit),
    Nothing,
}

/// The key bindings of normal mode; `dirty` tells whether either side has
/// unsaved changes.
pub open spec fn key_action(key: KeyPress, dirty: bool) -> Action {
    match key.code {
        KeyCode::Char('q') => if dirty {
            Action::ArmQuit
        } else {
            Action::Quit
        },
        KeyCode::Char('j') | KeyCode::Down => Action::ScrollDown,
        KeyCode::Char('k') | KeyCode::Up => Action::ScrollUp,
        KeyCode::Char('J') => Action::NextBlock,
        KeyCode::Char('K') => Action::PrevBlock,
        KeyCode::Char('l') | KeyCode::Right => Action::ScrollRight,
        KeyCode::Char('h') | KeyCode::Left => Action::ScrollLeft,
        KeyCode::Char('0') | KeyCode::Home => Action::ScrollToLeft,
        KeyCode::Char('$') | KeyCode::End => Action::ScrollToRight,
        KeyCode::Char('g') => Action::ArmG,
        KeyCode::Char('G') => Action::LastBlock,
        KeyCode::Char('L') => Action::Modify(Edit::CopyLeftToRight),
        KeyCode::Char('H') => Action::Modify(Edit::CopyRightToLeft),
        KeyCode::Char('w') => Action::Write,
        KeyCode::Char('u') => Action::Modify(Edit::Undo),
        KeyCode::Char('r') => if key.ctrl {
            Action::Modify(Edit::Redo)
        } else {
            Action::Nothing
        },
        _ => Action::Nothing,
    }
}

/// Whether either side has unsaved changes.
pub open spec fn app_dirty(a: App) -> bool {
    a.model.left_dirty || a.model.right_dirty
}

/// Row `i` is the first display row of block `b`.
pub open spec fn is_first_row_of(rows: Seq<DisplayRow>, b: usize, i: int) -> bool {
    &&& 0 <= i < rows.len()
    &&& rows[i].block_index == b
    &&& forall|j: int| 0 <= j < i ==> (#[trigger] rows[j]).block_index != b
}

/// The first display row of block `b`, or 0 when no row belongs to it.
pub open spec fn block_start(rows: Seq<DisplayRow>, b: usize) -> int {
    if exists|i: int| is_first_row_of(rows, b, i) {
        choose|i: int| is_first_row_of(rows, b, i)
    } else {
        0
    }
}

pub open spec fn with_viewport(a: App, v: Viewport) -> App {
    App { viewport: v, ..a }
}

pub open spec fn with_current_block(a: App, c: usize) -> App {
    App { model: crate::model::DiffModel { current_block: c, ..a.model }, ..a }
}

pub open spec fn with_input(a: App, pending_g: bool, pending_q: bool, at: Option<Instant>) -> App {
    App { input: InputState { pending_g: pending_g, pending_q: pending_q, pending_q_at: at }, ..a }
}

pub open spec fn with_overlay(a: App, o: Option<Overlay>) -> App {
    App { overlay: o, ..a }
}

/// The app scrolled so that the current change block is vertically centered
/// (as far as the scroll limits allow); unchanged when there are no change
/// blocks or the viewport has no rows.
pub open spec fn centered_on_current(a: App) -> App {
    if a.model.change_block_indices.len() == 0 || a.viewport.height == 0 {
        a
    } else {
        let b = a.model.change_block_indices@[a.model.current_block as int];
        let start = block_start(a.model.display_rows@, b) as u16;
        let target = start.saturating_sub((a.viewport.height / 2) as u16);
        let max = y_max(a.model.display_rows@.len(), a.viewport.height);
        with_viewport(a, a.viewport.with_scroll_y(min_u16(target as int, max)))
    }
}

/// `gg`: the first change block, centered; unchanged without change blocks.
pub open spec fn to_first_block(a: App) -> App {
    if a.model.change_block_indices.len() == 0 {
        a
    } else {
        centered_on_current(with_current_block(a, 0))
    }
}

/// `G`: the last change block, centered.
pub open spec fn to_last_block(a: App) -> App {
    if a.model.change_block_indices.len() == 0 {
        a
    } else {
        centered_on_current(
            with_current_block(a, (a.model.change_block_indices.len() - 1) as usize),
        )
    }
}

/// `J`: the next change block (staying at the last one), centered.
pub open spec fn to_next_block(a: App) -> App {
    if a.model.change_block_indices.len() == 0 {
        a
    } else if a.model.current_block < a.model.change_block_indices.len() - 1 {
        centered_on_current(with_current_block(a, (a.model.current_block + 1) as usize))
    } else {
        centered_on_current(a)
    }
}

/// `K`: the previous change block (staying at the first one), centered.
pub open spec fn to_prev_block(a: App) -> App {
    if a.model.change_block_indices.len() == 0 {
        a
    } else {
        centered_on_current(
            with_current_block(a, if a.model.current_block == 0 {
                0
            } else {
                (a.model.current_block - 1) as usize
            }),
        )
    }
}

/// The first side with unsaved changes, left before right.
pub open spec fn first_dirty_side(a: App) -> Option<Side> {
    if a.model.left_dirty {
        Some(Side::Left)
    } else if a.model.right_dirty {
        Some(Side::Right)
    } else {
        None
    }
}

/// The start of saving every dirty side in turn.
pub open spec fn save_all_effect(a: App) -> Effect {
    match first_dirty_side(a) {
        Some(s) => Effect::Save { side: s, then_rest: true },
        None => Effect::Done,
    }
}

/// What a normal-mode action does to the app, and what is left to the caller.
pub open spec fn apply_action(a: App, act: Action, now: Instant) -> (App, Effect) {
    let total = a.model.display_rows@.len();
    let max_x = a.model.max_content_width as u16;
    match act {
        Action::Quit => (App { running: false, ..a }, Effect::Done),
        Action::ArmQuit => (with_input(a, a.input.pending_g, true, Some(now)), Effect::Done),
        Action::ScrollDown => (with_viewport(a, a.viewport.scrolled_down(total)), Effect::Done),
        Action::ScrollUp => (with_viewport(a, a.viewport.scrolled_up()), Effect::Done),
        Action::NextBlock => (to_next_block(a), Effect::Done),
        Action::PrevBlock => (to_prev_block(a), Effect::Done),
        Action::ScrollRight => (with_viewport(a, a.viewport.scrolled_right(2, max_x)), Effect::Done),
        Action::ScrollLeft => (with_viewport(a, a.viewport.scrolled_left(2)), Effect::Done),
        Action::ScrollToLeft => (with_viewport(a, a.viewport.with_scroll_x(0)), Effect::Done),
        Action::ScrollToRight => (
            with_viewport(a, a.viewport.with_scroll_x(crate::viewport::x_max(max_x, a.viewport.width))),
            Effect::Done,
        ),
        Action::ArmG => (
            with_input(a, true, a.input.pending_q, a.input.pending_q_at),
            Effect::Done,
        ),
        Action::LastBlock => (to_last_block(a), Effect::Done),
        Action::Write => if a.model.left_dirty && a.model.right_dirty {
            (with_overlay(a, Some(Overlay::SavePicker)), Effect::Done)
        } else {
            (a, save_all_effect(a))
        },
        Action::Modify(e) => (a, Effect::Apply(e)),
        Action::Nothing => (a, Effect::Done),
    }
}

/// A key in normal mode: `gg` and `q!` chords first (an expired or broken
/// `q` chord is dropped and the key handled normally), then the bindings.
pub open spec fn normal_key_step(a: App, key: KeyPress, expired: bool, now: Instant) -> (App, Effect) {
    if a.input.pending_g && key.code == KeyCode::Char('g') {
        (to_first_block(with_input(a, false, a.input.pending_q, a.input.pending_q_at)), Effect::Done)
    } else {
        let a1 = with_input(a, false, a.input.pending_q, a.input.pending_q_at);
        let a2 = if a.input.pending_q {
            with_input(a1, false, false, None)
        } else {
            a1
        };
        if a.input.pending_q && !expired && key.code == KeyCode::Char('!') {
            (App { running: false, ..a2 }, Effect::Done)
        } else {
            apply_action(a2, key_action(key, app_dirty(a2)), now)
        }
    }
}

/// A key while an overlay is shown: the overlay takes every key.
pub open spec fn overlay_key_step(a: App, key: KeyPress) -> (App, Effect) {
    match a.overlay {
        Some(Overlay::WriteError { .. }) => if key.code == KeyCode::Esc {
            (with_overlay(a, None), Effect::Done)
        } else {
            (a, Effect::Done)
        },
        Some(Overlay::SavePicker) => match key.code {
            KeyCode::Char('l') => (with_overlay(a, None), Effect::Save { side: Side::Left, then_rest: false }),
            KeyCode::Char('r') => (with_overlay(a, None), Effect::Save { side: Side::Right, then_rest: false }),
            KeyCode::Char('a') => (with_overlay(a, None), save_all_effect(a)),
            KeyCode::Esc => (with_overlay(a, None), Effect::Done),
            _ => (a, Effect::Done),
        },
        None => (a, Effect::Done),
    }
}

/// A key press: routed to the overlay when one is shown, else to normal mode.
/// `expired` tells whether a pending `q` chord has timed out, and `now` is
/// the moment recorded when a `q` chord starts.
pub open spec fn key_step(a: App, key: KeyPress, expired: bool, now: Instant) -> (App, Effect) {
    if a.overlay is Some {
        overlay_key_step(a, key)
    } else {
        normal_key_step(a, key, expired, now)
    }
}

/// The path that saving `side` writes to.
pub open spec fn side_path(a: App, side: Side) -> String {
    match side {
        Side::Left => a.model.left_content.path,
        Side::Right => a.model.right_content.path,
    }
}

/// `post` and `eff` are the app and what is left to do after the write of
/// `side` ended with `outcome`: on success the side is clean and its path is
/// recorded (then the next dirty side is saved if `then_rest`); on failure
/// the error is shown and the side stays dirty.
pub open spec fn save_finished(
    pre: App,
    side: Side,
    outcome: Result<(), String>,
    then_rest: bool,
    post: App,
    eff: Effect,
) -> bool {
    let path = side_path(pre, side);
    match outcome {
        Ok(_) => {
            let m = match side {
                Side::Left => crate::model::DiffModel { left_dirty: false, ..pre.model },
                Side::Right => crate::model::DiffModel { right_dirty: false, ..pre.model },
            };
            &&& post == App { model: m, saved_files: post.saved_files, ..pre }
            &&& post.saved_files@ == pre.saved_files@.push(path)
            &&& eff == if then_rest {
                save_all_effect(post)
            } else {
                Effect::Done
            }
        },
        Err(message) => {
            &&& post == with_overlay(pre, Some(Overlay::WriteError { path: path, message: message }))
            &&& eff == Effect::Done
        },
    }
}

/// `Instant::now()`: the current moment. Nothing is stated of it.
#[verifier::external_body]
fn instant_now() -> Instant {
    Instant::now()
}

/// Holds of `nanos` when the clock, read at some moment, said that `nanos`
/// nanoseconds had passed since `since`. Each reading is its own, so this is
/// a relation: two readings for one `since` may differ.
pub uninterp spec fn elapsed_reading(since: Instant, nanos: u128) -> bool;

/// `Instant::elapsed`, in nanoseconds: how long ago `t` was. Claimed only
/// that the result is a reading of the clock for `t` (`elapsed_reading`);
/// its value depends on the clock and is not stated.
#[verifier::external_body]
fn nanos_since(t: &Instant) -> (n: u128)
    ensures
        elapsed_reading(*t, n),
{
    t.elapsed().as_nanos()
}

/// `age` is how long ago, by the clock, a chord started at `at` did: a
/// reading of the clock for its start, or none when it has no start time.
pub open spec fn age_reading(at: Option<Instant>, age: Option<u128>) -> bool {
    match (at, age) {
        (Some(t), Some(n)) => elapsed_reading(t, n),
        (None, None) => true,
        _ => false,
    }
}

/// A `q` chord whose start lies `elapsed` nanoseconds back (none when it
/// has no start time) has timed out: more than the chord timeout has passed,
/// or it never started.
pub open spec fn expired_after(elapsed: Option<u128>) -> bool {
    match elapsed {
        Some(n) => n > CHORD_TIMEOUT_NANOS,
        None => true,
    }
}

/// A `q` chord whose start lies `elapsed` nanoseconds back is still live:
/// it started, and no more than the chord timeout has passed.
pub open spec fn live_after(elapsed: Option<u128>) -> bool {
    match elapsed {
        Some(n) => n <= CHORD_TIMEOUT_NANOS,
        None => false,
    }
}

/// Whether a `q` chord that started `elapsed` nanoseconds ago (none when it
/// has no start time) has timed out.
pub fn chord_expired_after(elapsed: Option<u128>) -> (b: bool)
    ensures
        b == expired_after(elapsed),
{
    match elapsed {
        Some(n) => n > CHORD_TIMEOUT_NANOS,
        None => true,
    }
}

/// How long ago a chord started at `at` did, by the clock (none when it has
/// no start time).
pub(crate) fn chord_age(at: Option<Instant>) -> (e: Option<u128>)
    ensures
        age_reading(at, e),
{
    match at {
        Some(t) => Some(nanos_since(&t)),
        None => None,
    }
}

/// Handle a key press, updating app state; reads the clock for the `q!` chord.
pub fn handle_key(app: &mut App, key: KeyPress) -> (eff: Effect)
    requires
        old(app).wf(),
    ensures
        final(app).wf(),
        exists|e: Option<u128>, now: Instant|
            age_reading(old(app).input.pending_q_at, e) && (*final(app), eff)
                == #[trigger] key_step(*old(app), key, expired_after(e), now),
        old(app).input.pending_q_at is None ==> exists|now: Instant|
            (*final(app), eff) == key_step(*old(app), key, true, now),
{
    let age = chord_age(app.input.pending_q_at);
    let expired = chord_expired_after(age);
    let now = instant_now();
    let ghost pre = *app;
    let eff = handle_key_at(app, key, expired, now);
    proof {
        assert((*app, eff) == key_step(pre, key, expired_after(age), now));
    }
    eff
}

/// Handle a key press, given whether a pending `q` chord has timed out and
/// the moment to record if this key starts one.
pub fn handle_key_at(app: &mut App, key: KeyPress, expired: bool, now: Instant) -> (eff: Effect)
    requires
        old(app).wf(),
    ensures
        final(app).wf(),
        (*final(app), eff) == key_step(*old(app), key, expired, now),
{
    // Overlays intercept input until dismissed.
    if app.overlay.is_some() {
        return handle_overlay_key(app, key);
    }
    handle_normal_key(app, key, expired, now)
}

fn handle_normal_key(app: &mut App, key: KeyPress, expired: bool, now: Instant) -> (eff: Effect)
    requires
        old(app).wf(),
        old(app).overlay is None,
    ensures
        final(app).wf(),
        (*final(app), eff) == normal_key_step(*old(app), key, expired, now),
{
    let code = key.code;
    // `gg`: two consecutive `g` presses jump to the first change block.
    if app.input.pending_g {
        app.input.pending_g = false;
        if code == KeyCode::Char('g') {
            first_block(app);
            return Effect::Done;
        }
    }
    // `q!`: `q` on dirty starts the chord, `!` completes it. An expired or
    // broken chord is dropped and the key handled normally.
    if app.input.pending_q {
        app.input.pending_q = false;
        app.input.pending_q_at = None;
        if !expired && code == KeyCode::Char('!') {
            app.running = false;
            return Effect::Done;
        }
    }
    let dirty = is_dirty(app);
    let act = key_action_of(key, dirty);
    apply(app, act, now)
}

/// The normal-mode binding of `key`.
pub fn key_action_of(key: KeyPress, dirty: bool) -> (act: Action)
    ensures
        act == key_action(key, dirty),
{
    match key.code {
        KeyCode::Char('q') => if dirty {
            Action::ArmQuit
        } else {
            Action::Quit
        },
        KeyCode::Char('j') | KeyCode::Down => Action::ScrollDown,
        KeyCode::Char('k') | KeyCode::Up => Action::ScrollUp,
        KeyCode::Char('J') => Action::NextBlock,
        KeyCode::Char('K') => Action::PrevBlock,
        KeyCode::Char('l') | KeyCode::Right => Action::ScrollRight,
        KeyCode::Char('h') | KeyCode::Left => Action::ScrollLeft,
        KeyCode::Char('0') | KeyCode::Home => Action::ScrollToLeft,
        KeyCode::Char('$') | KeyCode::End => Action::ScrollToRight,
        KeyCode::Char('g') => Action::ArmG,
        KeyCode::Char('G') => Action::LastBlock,
        KeyCode::Char('L') => Action::Modify(Edit::CopyLeftToRight),
        KeyCode::Char('H') => Action::Modify(Edit::CopyRightToLeft),
        KeyCode::Char('w') => Action::Write,
        KeyCode::Char('u') => Action::Modify(Edit::Undo),
        KeyCode::Char('r') => if key.ctrl {
            Action::Modify(Edit::Redo)
        } else {
            Action::Nothing
        },
        _ => Action::Nothing,
    }
}

fn apply(app: &mut App, act: Action, now: Instant) -> (eff: Effect)
    requires
        old(app).wf(),
    ensures
        final(app).wf(),
        (*final(app), eff) == apply_action(*old(app), act, now),
{
    let total_rows = app.model.display_rows.len();
    let max_x = app.model.max_content_width as u16;
    match act {
        Action::Quit => {
            app.running = false;
        },
        Action::ArmQuit => {
            app.input.pending_q = true;
            app.input.pending_q_at = Some(now);
        },
        Action::ScrollDown => {
            app.viewport.scroll_down(total_rows);
        },
        Action::ScrollUp => {
            app.viewport.scroll_up();
        },
        Action::NextBlock => {
            next_block(app);
        },
        Action::PrevBlock => {
            prev_block(app);
        },
        Action::ScrollRight => {
            app.viewport.scroll_right(2, max_x);
        },
        Action::ScrollLeft => {
            app.viewport.scroll_left(2);
        },
        Action::ScrollToLeft => {
            app.viewport.scroll_to_left();
        },
        Action::ScrollToRight => {
            app.viewport.scroll_to_right(max_x);
        },
        Action::ArmG => {
            app.input.pending_g = true;
        },
        Action::LastBlock => {
            last_block(app);
        },
        Action::Write => {
            if app.model.left_dirty && app.model.right_dirty {
                app.overlay = Some(Overlay::SavePicker);
            } else {
                return save_all_dirty(app);
            }
        },
        Action::Modify(e) => {
            return Effect::Apply(e);
        },
        Action::Nothing => {},
    }
    Effect::Done
}

/// Dispatch input while an overlay is active.
fn handle_overlay_key(app: &mut App, key: KeyPress) -> (eff: Effect)
    requires
        old(app).wf(),
        old(app).overlay is Some,
    ensures
        final(app).wf(),
        (*final(app), eff) == overlay_key_step(*old(app), key),
{
    let picker = match &app.overlay {
        Some(Overlay::SavePicker) => true,
        _ => false,
    };
    if !picker {
        if key.code == KeyCode::Esc {
            app.overlay = None;
        }
        return Effect::Done;
    }
    match key.code {
        KeyCode::Char('l') => {
            app.overlay = None;
            Effect::Save { side: Side::Left, then_rest: false }
        },
        KeyCode::Char('r') => {
            app.overlay = None;
            Effect::Save { side: Side::Right, then_rest: false }
        },
        KeyCode::Char('a') => {
            app.overlay = None;
            save_all_dirty(app)
        },
        KeyCode::Esc => {
            app.overlay = None;
            Effect::Done
        },
        _ => Effect::Done,
    }
}

/// Whether either side has unsaved changes.
fn is_dirty(app: &App) -> (b: bool)
    ensures
        b == app_dirty(*app),
{
    app.model.left_dirty || app.model.right_dirty
}

/// Start saving every dirty side in turn, left first.
fn save_all_dirty(app: &App) -> (eff: Effect)
    ensures
        eff == save_all_effect(*app),
{
    if app.model.left_dirty {
        Effect::Save { side: Side::Left, then_rest: true }
    } else if app.model.right_dirty {
        Effect::Save { side: Side::Right, then_rest: true }
    } else {
        Effect::Done
    }
}

/// Record the outcome of writing `side` to disk. On success, clears its dirty
/// flag, records its path and (with `then_rest`) asks for the next dirty side.
/// On failure, shows `Overlay::WriteError` and keeps the dirty flag so the
/// user can retry; no further side is saved.
pub fn finish_save(app: &mut App, side: Side, outcome: Result<(), String>, then_rest: bool) -> (eff: Effect)
    requires
        old(app).wf(),
    ensures
        final(app).wf(),
        save_finished(*old(app), side, outcome, then_rest, *final(app), eff),
{
    let full_path = match side {
        Side::Left => app.model.left_content.path.clone(),
        Side::Right => app.model.right_content.path.clone(),
    };
    match outcome {
        Ok(()) => {
            match side {
                Side::Left => app.model.left_dirty = false,
                Side::Right => app.model.right_dirty = false,
            }
            app.saved_files.push(full_path);
            if then_rest {
                save_all_dirty(app)
            } else {
                Effect::Done
            }
        },
        Err(message) => {
            app.overlay = Some(Overlay::WriteError { path: full_path, message });
            Effect::Done
        },
    }
}

/// Jump to the first change block.
fn first_block(app: &mut App)
    requires
        old(app).wf(),
    ensures
        final(app).wf(),
        *final(app) == to_first_block(*old(app)),
{
    if app.model.change_block_indices.len() == 0 {
        return;
    }
    app.model.current_block = 0;
    scroll_to_current_block(app);
}

/// Jump to the last change block.
fn last_block(app: &mut App)
    requires
        old(app).wf(),
    ensures
        final(app).wf(),
        *final(app) == to_last_block(*old(app)),
{
    if app.model.change_block_indices.len() == 0 {
        return;
    }
    app.model.current_block = app.model.change_block_indices.len() - 1;
    scroll_to_current_block(app);
}

/// Advance to the next change block (clamped at last).
fn next_block(app: &mut App)
    requires
        old(app).wf(),
    ensures
        final(app).wf(),
        *final(app) == to_next_block(*old(app)),
{
    if app.model.change_block_indices.len() == 0 {
        return;
    }
    if app.model.current_block < app.model.change_block_indices.len() - 1 {
        app.model.current_block = app.model.current_block + 1;
    }
    scroll_to_current_block(app);
}

/// Retreat to the previous change block (clamped at first).
fn prev_block(app: &mut App)
    requires
        old(app).wf(),
    ensures
        final(app).wf(),
        *final(app) == to_prev_block(*old(app)),
{
    if app.model.change_block_indices.len() == 0 {
        return;
    }
    app.model.current_block = app.model.current_block.saturating_sub(1);
    scroll_to_current_block(app);
}

/// The first display row of block `b`, or 0 when no row belongs to it.
fn first_row_of_block(rows: &Vec<DisplayRow>, b: usize) -> (i: usize)
    ensures
        i as int == block_start(rows@, b),
{
    let mut i: usize = 0;
    while i < rows.len()
        invariant
            i <= rows.len(),
            forall|j: int| 0 <= j < i ==> (#[trigger] rows@[j]).block_index != b,
        decreases rows.len() - i,
    {
        if rows[i].block_index == b {
            proof {
                assert(is_first_row_of(rows@, b, i as int));
                let k = choose|k: int| is_first_row_of(rows@, b, k);
                if k < i {
                    assert(rows@[k].block_index != b);
                } else if k > i {
                    assert(rows@[i as int].block_index != b);
                }
            }
            return i;
        }
        i += 1;
    }
    assert forall|k: int| !is_first_row_of(rows@, b, k) by {
        if 0 <= k < rows.len() {
            assert(rows@[k].block_index != b);
        }
    }
    0
}

/// Scroll so the current change block is vertically centered in the viewport.
pub fn scroll_to_current_block(app: &mut App)
    requires
        old(app).wf(),
    ensures
        final(app).wf(),
        *final(app) == centered_on_current(*old(app)),
{
    if app.model.change_block_indices.len() == 0 || app.viewport.height == 0 {
        return;
    }
    let block_index = app.model.change_block_indices[app.model.current_block];
    let block_start = first_row_of_block(&app.model.display_rows, block_index) as u16;
    let half_vp = app.viewport.height / 2;
    let target = block_start.saturating_sub(half_vp);
    let max = app.viewport.scroll_y_max(app.model.display_rows.len());
    app.viewport.scroll_y = if target < max {
        target
    } else {
        max
    };
}

} // verus!
