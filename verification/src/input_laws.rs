use vstd::prelude::*;
use std::time::Instant;
use crate::app::{App, Side};
use crate::overlay::Overlay;
use crate::input::{block_start, is_first_row_of, expired_after, live_after, Action, apply_action, centered_on_current, to_last_block, to_next_block, to_prev_block, with_current_block, key_step, KeyPress, KeyCode, Effect, app_dirty, with_input, to_first_block, save_all_effect, save_finished, side_path};

verus! {

/// While an overlay is shown it takes every key: the diff model, the
/// viewport, the running flag, the chord state and the saved files stay as
/// they are; only the overlay itself may go away.
pub proof fn law_overlay_swallows_keys(a: App, key: KeyPress, expired: bool, now: Instant)
    requires
        a.overlay is Some,
    ensures
        ({
            let post = key_step(a, key, expired, now).0;
            &&& post.model == a.model
            &&& post.viewport == a.viewport
            &&& post.running == a.running
            &&& post.input == a.input
            &&& post.saved_files == a.saved_files
        }),
{
}

/// A write-error overlay goes away with `Esc` and with no other key.
pub proof fn law_write_error_dismissed_by_esc_only(a: App, key: KeyPress, expired: bool, now: Instant)
    requires
        a.overlay matches Some(Overlay::WriteError { .. }),
    ensures
        (key_step(a, key, expired, now).0.overlay is None) <==> (key.code == KeyCode::Esc),
        key_step(a, key, expired, now).1 == Effect::Done,
{
}

/// The save picker saves the left side on `l`, the right side on `r`, every
/// dirty side on `a`, nothing on `Esc` (each of which closes it), and ignores
/// every other key.
pub proof fn law_save_picker_choices(a: App, key: KeyPress, expired: bool, now: Instant)
    requires
        a.overlay == Some(Overlay::SavePicker),
    ensures
        ({
            let (post, eff) = key_step(a, key, expired, now);
            &&& key.code == KeyCode::Char('l') ==> post.overlay is None && eff == (Effect::Save {
                side: Side::Left,
                then_rest: false,
            })
            &&& key.code == KeyCode::Char('r') ==> post.overlay is None && eff == (Effect::Save {
                side: Side::Right,
                then_rest: false,
            })
            &&& key.code == KeyCode::Char('a') ==> post.overlay is None && eff == save_all_effect(a)
            &&& key.code == KeyCode::Esc ==> post.overlay is None && eff == Effect::Done
            &&& !(key.code == KeyCode::Char('l') || key.code == KeyCode::Char('r') || key.code
                == KeyCode::Char('a') || key.code == KeyCode::Esc) ==> post == a && eff
                == Effect::Done
        }),
{
}

/// `q` with nothing unsaved quits at once; with unsaved changes it only
/// starts the `q!` chord.
pub proof fn law_quit_depends_on_dirty(a: App, expired: bool, now: Instant)
    requires
        a.overlay is None,
        !a.input.pending_g,
        !a.input.pending_q,
        a.running,
    ensures
        ({
            let (post, eff) = key_step(a, KeyPress { code: KeyCode::Char('q'), ctrl: false }, expired, now);
            &&& post.running == app_dirty(a)
            &&& post.input.pending_q == app_dirty(a)
            &&& post.model == a.model
            &&& eff == Effect::Done
        }),
{
}

/// `!` while the `q` chord is pending and not timed out quits without saving:
/// the unsaved-change flags stay as they were.
pub proof fn law_force_quit_keeps_changes(a: App, expired: bool, now: Instant)
    requires
        a.overlay is None,
        !a.input.pending_g,
        a.input.pending_q,
        !expired,
    ensures
        ({
            let (post, eff) = key_step(a, KeyPress { code: KeyCode::Char('!'), ctrl: false }, expired, now);
            &&& !post.running
            &&& !post.input.pending_q
            &&& post.model == a.model
            &&& eff == Effect::Done
        }),
{
}

/// `!` after `q` quits exactly when the chord is still live: it started no
/// more than the chord timeout (half a second) before, by the clock.
pub proof fn law_quit_chord_times_out(a: App, elapsed: Option<u128>, now: Instant)
    requires
        a.overlay is None,
        a.running,
        !a.input.pending_g,
        a.input.pending_q,
    ensures
        ({
            let (post, eff) = key_step(
                a,
                KeyPress { code: KeyCode::Char('!'), ctrl: false },
                expired_after(elapsed),
                now,
            );
            &&& post.running <==> !live_after(elapsed)
            &&& !post.input.pending_q
            &&& post.model == a.model
        }),
{
}

/// A pending `q` chord that timed out, or that is followed by any key but
/// `!`, is dropped: the key does what it does with no chord pending.
pub proof fn law_broken_quit_chord_is_dropped(a: App, key: KeyPress, expired: bool, now: Instant)
    requires
        a.overlay is None,
        !a.input.pending_g,
        a.input.pending_q,
        expired || key.code != KeyCode::Char('!'),
    ensures
        key_step(a, key, expired, now) == key_step(with_input(a, false, false, None), key, expired, now),
{
}

/// `g` followed by `g` jumps to the first change block; `g` followed by any
/// other key does what that key does with no chord pending.
pub proof fn law_g_chord(a: App, key: KeyPress, expired: bool, now: Instant)
    requires
        a.overlay is None,
        a.input.pending_g,
    ensures
        key.code == KeyCode::Char('g') ==> key_step(a, key, expired, now).0 == to_first_block(
            with_input(a, false, a.input.pending_q, a.input.pending_q_at),
        ),
        key.code != KeyCode::Char('g') ==> key_step(a, key, expired, now) == key_step(
            with_input(a, false, a.input.pending_q, a.input.pending_q_at),
            key,
            expired,
            now,
        ),
{
}

/// What no key changes: the display rows and widest content (so the scroll
/// limits), the change blocks, the viewport size, the contents, their
/// unsaved-change flags and the saved files.
pub open spec fn limits_kept(a: App, post: App) -> bool {
    &&& post.model.display_rows == a.model.display_rows
    &&& post.model.max_content_width == a.model.max_content_width
    &&& post.model.change_block_indices == a.model.change_block_indices
    &&& post.viewport.height == a.viewport.height
    &&& post.viewport.width == a.viewport.width
    &&& post.model.left_content == a.model.left_content
    &&& post.model.right_content == a.model.right_content
    &&& post.model.left_dirty == a.model.left_dirty
    &&& post.model.right_dirty == a.model.right_dirty
    &&& post.saved_files == a.saved_files
}

/// The view's offsets are within their limits.
pub open spec fn view_within(a: App) -> bool {
    a.viewport.within(a.model.display_rows@.len(), a.model.max_content_width as u16)
}

proof fn lemma_centered(a: App)
    requires
        a.wf(),
    ensures
        centered_on_current(a).wf(),
        limits_kept(a, centered_on_current(a)),
        centered_on_current(a).viewport.scroll_x == a.viewport.scroll_x,
        centered_on_current(a).viewport.scroll_y <= crate::viewport::y_max(
            a.model.display_rows@.len(),
            a.viewport.height,
        ) || centered_on_current(a).viewport == a.viewport,
{
}

proof fn lemma_navigation(a: App)
    requires
        a.wf(),
    ensures
        to_first_block(a).wf() && limits_kept(a, to_first_block(a)),
        to_last_block(a).wf() && limits_kept(a, to_last_block(a)),
        to_next_block(a).wf() && limits_kept(a, to_next_block(a)),
        to_prev_block(a).wf() && limits_kept(a, to_prev_block(a)),
        view_within(a) ==> view_within(to_first_block(a)) && view_within(to_last_block(a))
            && view_within(to_next_block(a)) && view_within(to_prev_block(a)),
{
    if a.model.change_block_indices.len() > 0 {
        lemma_centered(with_current_block(a, 0));
        lemma_centered(with_current_block(a, (a.model.change_block_indices.len() - 1) as usize));
        if a.model.current_block < a.model.change_block_indices.len() - 1 {
            lemma_centered(with_current_block(a, (a.model.current_block + 1) as usize));
        } else {
            lemma_centered(a);
        }
        lemma_centered(
            with_current_block(a, if a.model.current_block == 0 {
                0
            } else {
                (a.model.current_block - 1) as usize
            }),
        );
    }
}

proof fn lemma_apply(a: App, act: Action, now: Instant)
    requires
        a.wf(),
    ensures
        apply_action(a, act, now).0.wf(),
        limits_kept(a, apply_action(a, act, now).0),
        view_within(a) ==> view_within(apply_action(a, act, now).0),
{
    lemma_navigation(a);
}

proof fn lemma_key_step(a: App, key: KeyPress, expired: bool, now: Instant)
    requires
        a.wf(),
    ensures
        key_step(a, key, expired, now).0.wf(),
        limits_kept(a, key_step(a, key, expired, now).0),
        view_within(a) ==> view_within(key_step(a, key, expired, now).0),
{
    if a.overlay is None {
        let a1 = with_input(a, false, a.input.pending_q, a.input.pending_q_at);
        lemma_navigation(a1);
        let a2 = if a.input.pending_q {
            with_input(a1, false, false, None)
        } else {
            a1
        };
        lemma_apply(a2, crate::input::key_action(key, app_dirty(a2)), now);
    }
}

/// No key moves the view past its scroll limits: offsets within their limits
/// stay within them.
pub proof fn law_scroll_stays_within_limits(a: App, key: KeyPress, expired: bool, now: Instant)
    requires
        a.wf(),
        view_within(a),
    ensures
        view_within(key_step(a, key, expired, now).0),
{
    lemma_key_step(a, key, expired, now);
}

/// Keys never change the file contents, the unsaved-change flags or the list
/// of saved files: edits are handed to the caller, and only the report of a
/// finished save (`finish_save`) clears a flag or records a file.
pub proof fn law_keys_leave_contents_alone(a: App, key: KeyPress, expired: bool, now: Instant)
    requires
        a.wf(),
    ensures
        ({
            let post = key_step(a, key, expired, now).0;
            &&& post.model.left_content == a.model.left_content
            &&& post.model.right_content == a.model.right_content
            &&& post.model.left_dirty == a.model.left_dirty
            &&& post.model.right_dirty == a.model.right_dirty
            &&& post.saved_files == a.saved_files
        }),
{
    lemma_key_step(a, key, expired, now);
}

/// Every key keeps the current change block a valid position.
pub proof fn law_current_block_stays_valid(a: App, key: KeyPress, expired: bool, now: Instant)
    requires
        a.wf(),
    ensures
        key_step(a, key, expired, now).0.wf(),
{
    lemma_key_step(a, key, expired, now);
}

/// `J` on the last change block and `K` on the first one stay there.
pub proof fn law_block_navigation_clamps(a: App, expired: bool, now: Instant)
    requires
        a.wf(),
        a.overlay is None,
        !a.input.pending_g,
        !a.input.pending_q,
        a.model.change_block_indices.len() > 0,
    ensures
        a.model.current_block == a.model.change_block_indices.len() - 1 ==> key_step(
            a,
            KeyPress { code: KeyCode::Char('J'), ctrl: false },
            expired,
            now,
        ).0.model.current_block == a.model.current_block,
        a.model.current_block == 0 ==> key_step(
            a,
            KeyPress { code: KeyCode::Char('K'), ctrl: false },
            expired,
            now,
        ).0.model.current_block == 0,
{
}

/// `J` moves to the very next change block and `K` to the very previous
/// one, one step at a time (never skipping a block), and `G` to the last;
/// each leaves the current block at a valid position.
pub proof fn law_block_navigation_steps(a: App, expired: bool, now: Instant)
    requires
        a.wf(),
        a.overlay is None,
        !a.input.pending_g,
        !a.input.pending_q,
        a.model.change_block_indices.len() > 0,
    ensures
        a.model.current_block + 1 < a.model.change_block_indices.len() ==> key_step(
            a,
            KeyPress { code: KeyCode::Char('J'), ctrl: false },
            expired,
            now,
        ).0.model.current_block == a.model.current_block + 1,
        a.model.current_block > 0 ==> key_step(
            a,
            KeyPress { code: KeyCode::Char('K'), ctrl: false },
            expired,
            now,
        ).0.model.current_block == a.model.current_block - 1,
        key_step(a, KeyPress { code: KeyCode::Char('G'), ctrl: false }, expired, now).0.model.current_block
            == a.model.change_block_indices.len() - 1,
{
}

/// The first display row of the current change block is on screen.
pub open spec fn current_block_shown(a: App) -> bool {
    let b = a.model.change_block_indices@[a.model.current_block as int];
    let start = block_start(a.model.display_rows@, b);
    a.viewport.scroll_y <= start < a.viewport.scroll_y + a.viewport.height
}

/// Every change block has a display row.
pub open spec fn blocks_have_rows(a: App) -> bool {
    forall|c: int|
        0 <= c < a.model.change_block_indices@.len() ==> exists|i: int|
            is_first_row_of(a.model.display_rows@, #[trigger] a.model.change_block_indices@[c], i)
}

proof fn lemma_centered_shows(a: App)
    requires
        a.wf(),
        a.model.change_block_indices@.len() > 0,
        a.viewport.height > 0,
        a.model.display_rows@.len() <= u16::MAX,
        exists|i: int|
            is_first_row_of(
                a.model.display_rows@,
                a.model.change_block_indices@[a.model.current_block as int],
                i,
            ),
    ensures
        current_block_shown(centered_on_current(a)),
{
    let b = a.model.change_block_indices@[a.model.current_block as int];
    let rows = a.model.display_rows@;
    let start = block_start(rows, b);
    assert(is_first_row_of(rows, b, start));
}

/// `J`, `K` and `G` bring the change block they move to into view: its
/// first display row is on screen afterwards (the block is centered as far
/// as the scroll limits allow).
pub proof fn law_navigation_shows_block(a: App, expired: bool, now: Instant)
    requires
        a.wf(),
        a.overlay is None,
        !a.input.pending_g,
        !a.input.pending_q,
        a.model.change_block_indices.len() > 0,
        a.viewport.height > 0,
        a.model.display_rows@.len() <= u16::MAX,
        blocks_have_rows(a),
    ensures
        current_block_shown(key_step(a, KeyPress { code: KeyCode::Char('J'), ctrl: false }, expired, now).0),
        current_block_shown(key_step(a, KeyPress { code: KeyCode::Char('K'), ctrl: false }, expired, now).0),
        current_block_shown(key_step(a, KeyPress { code: KeyCode::Char('G'), ctrl: false }, expired, now).0),
{
    let n = a.model.change_block_indices.len();
    let cbi = a.model.change_block_indices@;
    let rows = a.model.display_rows@;
    let bc = cbi[a.model.current_block as int];
    assert(exists|i: int| is_first_row_of(rows, bc, i));
    if a.model.current_block < n - 1 {
        let c1: int = a.model.current_block + 1;
        let b1 = cbi[c1];
        assert(exists|i: int| is_first_row_of(rows, b1, i));
        lemma_centered_shows(with_current_block(a, (a.model.current_block + 1) as usize));
    } else {
        lemma_centered_shows(a);
    }
    if a.model.current_block == 0 {
        lemma_centered_shows(with_current_block(a, 0));
    } else {
        let c0: int = a.model.current_block - 1;
        let b0 = cbi[c0];
        assert(exists|i: int| is_first_row_of(rows, b0, i));
        lemma_centered_shows(with_current_block(a, (a.model.current_block - 1) as usize));
    }
    let cl: int = n - 1;
    let bl = cbi[cl];
    assert(exists|i: int| is_first_row_of(rows, bl, i));
    let last = with_current_block(a, (n - 1) as usize);
    assert(last.model.current_block == cl);
    assert(last.model.change_block_indices@[last.model.current_block as int] == bl);
    lemma_centered_shows(last);
}

/// `gg` goes to the first change block.
pub proof fn law_gg_goes_to_first_block(a: App, expired: bool, now: Instant)
    requires
        a.overlay is None,
        a.input.pending_g,
        a.model.change_block_indices.len() > 0,
    ensures
        key_step(a, KeyPress { code: KeyCode::Char('g'), ctrl: false }, expired, now).0.model.current_block
            == 0,
{
}

/// `Home` scrolls to the first column and does exactly what `0` does;
/// `End` does exactly what `$` does. With Ctrl held or not, these keys
/// only move the view across.
pub proof fn law_home_and_end(a: App, ctrl: bool, expired: bool, now: Instant)
    requires
        a.overlay is None,
        !a.input.pending_g,
        !a.input.pending_q,
    ensures
        key_step(a, KeyPress { code: KeyCode::Home, ctrl: ctrl }, expired, now).0.viewport.scroll_x == 0,
        key_step(a, KeyPress { code: KeyCode::Home, ctrl: ctrl }, expired, now) == key_step(
            a,
            KeyPress { code: KeyCode::Char('0'), ctrl: ctrl },
            expired,
            now,
        ),
        key_step(a, KeyPress { code: KeyCode::End, ctrl: ctrl }, expired, now) == key_step(
            a,
            KeyPress { code: KeyCode::Char('$'), ctrl: ctrl },
            expired,
            now,
        ),
        key_step(a, KeyPress { code: KeyCode::Home, ctrl: ctrl }, expired, now).0 == (App {
            viewport: key_step(a, KeyPress { code: KeyCode::Home, ctrl: ctrl }, expired, now).0.viewport,
            ..a
        }),
        key_step(a, KeyPress { code: KeyCode::Home, ctrl: ctrl }, expired, now).0.viewport.scroll_y
            == a.viewport.scroll_y,
{
}

/// `w` with both sides dirty opens the save picker and saves nothing; with
/// one side dirty it saves that side; with nothing dirty it does nothing.
pub proof fn law_write_key(a: App, expired: bool, now: Instant)
    requires
        a.overlay is None,
        !a.input.pending_g,
        !a.input.pending_q,
    ensures
        ({
            let (post, eff) = key_step(a, KeyPress { code: KeyCode::Char('w'), ctrl: false }, expired, now);
            &&& a.model.left_dirty && a.model.right_dirty ==> post.overlay == Some(
                Overlay::SavePicker,
            ) && eff == Effect::Done
            &&& a.model.left_dirty && !a.model.right_dirty ==> eff == (Effect::Save {
                side: Side::Left,
                then_rest: true,
            })
            &&& !a.model.left_dirty && a.model.right_dirty ==> eff == (Effect::Save {
                side: Side::Right,
                then_rest: true,
            })
            &&& !a.model.left_dirty && !a.model.right_dirty ==> post == a && eff == Effect::Done
        }),
{
}

/// A successful save leaves that side clean and records its path once; a
/// failed save keeps the side dirty, shows the error, and saves nothing more.
pub proof fn law_save_outcome(
    a: App,
    side: Side,
    outcome: Result<(), String>,
    then_rest: bool,
    post: App,
    eff: Effect,
)
    requires
        save_finished(a, side, outcome, then_rest, post, eff),
    ensures
        outcome is Ok ==> match side {
            Side::Left => !post.model.left_dirty && post.model.right_dirty == a.model.right_dirty,
            Side::Right => !post.model.right_dirty && post.model.left_dirty == a.model.left_dirty,
        } && post.saved_files@ == a.saved_files@.push(side_path(a, side)),
        outcome is Err ==> (post.model == a.model && post.saved_files == a.saved_files
            && (post.overlay matches Some(Overlay::WriteError { .. })) && eff == Effect::Done),
{
}

/// Saving every dirty side in turn ends after at most one more step: after
/// the left side is saved the next request, if any, is for the right side,
/// and after the right side is saved nothing is left to save.
pub proof fn law_save_all_order(
    a: App,
    side: Side,
    post: App,
    eff: Effect,
)
    requires
        save_finished(a, side, Ok(()), true, post, eff),
        side == Side::Right ==> !a.model.left_dirty,
    ensures
        side == Side::Left ==> (eff == (Effect::Save { side: Side::Right, then_rest: true })
            <==> a.model.right_dirty),
        side == Side::Left && !a.model.right_dirty ==> eff == Effect::Done,
        side == Side::Right ==> eff == Effect::Done,
{
}

} // verus!
