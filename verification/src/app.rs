use vstd::prelude::*;
use std::time::Instant;
use crate::model::DiffModel;
use crate::viewport::Viewport;
use crate::overlay::Overlay;

verus! {

#[verifier::external_type_specification]
#[verifier::external_body]
pub struct ExInstant(Instant);

/// Maximum time between keystrokes in a chord sequence (e.g., `q!`), in nanoseconds.
pub const CHORD_TIMEOUT_NANOS: u128 = 500_000_000;

/// Application mode — determines how input is interpreted.
#[derive(Debug, Clone, Copy, PartialEq, Eq, Structural)]
pub enum Mode {
    Normal,
    Command,
    Overlay,
}

impl Default for Mode {
    fn default() -> (m: Mode)
        ensures
            m == Mode::Normal,
    {
        Mode::Normal
    }
}

/// Which file pane an action targets.
#[derive(Debug, Clone, Copy, PartialEq, Eq, Structural)]
pub enum Side {
    Left,
    Right,
}

/// Tracks multi-key input sequences (e.g., `gg`, `q!`).
pub struct InputState {
    /// Whether the previous keypress was `g` (waiting for `gg`).
    pub pending_g: bool,
    /// Whether the previous keypress was `q` on a dirty buffer (waiting for `!` to complete `q!`).
    pub pending_q: bool,
    /// When `pending_q` was set, for chord timeout.
    pub pending_q_at: Option<Instant>,
}

impl InputState {
    /// No chord in progress.
    pub fn new() -> (s: InputState)
        ensures
            !s.pending_g,
            !s.pending_q,
            s.pending_q_at is None,
    {
        InputState { pending_g: false, pending_q: false, pending_q_at: None }
    }
}

impl Default for InputState {
    /// No chord in progress.
    fn default() -> (s: InputState)
        ensures
            !s.pending_g,
            !s.pending_q,
            s.pending_q_at is None,
    {
        InputState::new()
    }
}

/// Application state that input handling and drawing work on.
pub struct App {
    pub model: DiffModel,
    pub running: bool,
    pub mode: Mode,
    pub left_dir: String,
    pub left_filename: String,
    pub right_dir: String,
    pub right_filename: String,
    pub needs_initial_scroll: bool,
    pub viewport: Viewport,
    pub input: InputState,
    pub show_minimap: bool,
    /// Active overlay, if any. When `Some`, input routes to overlay handlers.
    pub overlay: Option<Overlay>,
    /// Files saved during this session, printed to stdout after exit.
    pub saved_files: Vec<String>,
}

impl App {
    pub open spec fn wf(&self) -> bool {
        self.model.wf()
    }

    /// A running app over `model` with nothing scrolled, no overlay, no chord
    /// in progress and nothing saved yet.
    pub fn from_model(model: DiffModel, show_minimap: bool) -> (app: App)
        ensures
            app.model == model,
            app.running,
            app.mode == Mode::Normal,
            app.left_dir@.len() == 0,
            app.left_filename@.len() == 0,
            app.right_dir@.len() == 0,
            app.right_filename@.len() == 0,
            !app.needs_initial_scroll,
            app.viewport == (Viewport { scroll_y: 0, scroll_x: 0, height: 0, width: 0 }),
            !app.input.pending_g,
            !app.input.pending_q,
            app.input.pending_q_at is None,
            app.show_minimap == show_minimap,
            app.overlay is None,
            app.saved_files@.len() == 0,
    {
        App {
            model,
            running: true,
            mode: Mode::Normal,
            left_dir: String::new(),
            left_filename: String::new(),
            right_dir: String::new(),
            right_filename: String::new(),
            needs_initial_scroll: false,
            viewport: Viewport { scroll_y: 0, scroll_x: 0, height: 0, width: 0 },
            input: InputState::new(),
            show_minimap,
            overlay: None,
            saved_files: Vec::new(),
        }
    }
}

} // verus!
