use vstd::prelude::*;

verus! {

/// The visible window onto the display rows: its scroll offsets and its size
/// in rows (`height`) and columns (`width`).
#[derive(Debug, Clone, Copy, PartialEq, Eq, Structural)]
pub struct Viewport {
    pub scroll_y: u16,
    pub scroll_x: u16,
    pub height: u16,
    pub width: u16,
}

/// The largest first row that still fills the window: the rows past one
/// screenful, capped to what a `u16` offset can hold.
pub open spec fn y_max(total_rows: nat, height: u16) -> u16 {
    if total_rows <= height {
        0
    } else if total_rows - height > u16::MAX {
        u16::MAX
    } else {
        (total_rows - height) as u16
    }
}

/// The largest first column that still fills the window.
pub open spec fn x_max(max_x: u16, width: u16) -> u16 {
    if max_x <= width {
        0
    } else {
        (max_x - width) as u16
    }
}

pub open spec fn min_u16(a: int, b: u16) -> u16 {
    if a < b {
        a as u16
    } else {
        b
    }
}

impl Viewport {
    pub open spec fn with_scroll_y(self, y: u16) -> Viewport {
        Viewport { scroll_y: y, ..self }
    }

    pub open spec fn with_scroll_x(self, x: u16) -> Viewport {
        Viewport { scroll_x: x, ..self }
    }

    /// One row further down, never past the last full screen.
    pub open spec fn scrolled_down(self, total_rows: nat) -> Viewport {
        self.with_scroll_y(min_u16(self.scroll_y + 1, y_max(total_rows, self.height)))
    }

    /// One row further up, stopping at the first row.
    pub open spec fn scrolled_up(self) -> Viewport {
        self.with_scroll_y(if self.scroll_y == 0 { 0 } else { (self.scroll_y - 1) as u16 })
    }

    /// `step` columns further right, never past the widest content.
    pub open spec fn scrolled_right(self, step: u16, max_x: u16) -> Viewport {
        self.with_scroll_x(min_u16(self.scroll_x + step, x_max(max_x, self.width)))
    }

    /// `step` columns further left, stopping at the first column.
    pub open spec fn scrolled_left(self, step: u16) -> Viewport {
        self.with_scroll_x(if self.scroll_x <= step { 0 } else { (self.scroll_x - step) as u16 })
    }

    /// Both offsets brought back within their limits.
    pub open spec fn clamped(self, total_rows: nat, max_x: u16) -> Viewport {
        Viewport {
            scroll_y: min_u16(self.scroll_y as int, y_max(total_rows, self.height)),
            scroll_x: min_u16(self.scroll_x as int, x_max(max_x, self.width)),
            ..self
        }
    }

    /// Whether both offsets are within their limits.
    pub open spec fn within(self, total_rows: nat, max_x: u16) -> bool {
        self.scroll_y <= y_max(total_rows, self.height) && self.scroll_x <= x_max(
            max_x,
            self.width,
        )
    }

    /// The largest vertical offset for `total_rows` display rows.
    pub fn scroll_y_max(&self, total_rows: usize) -> (m: u16)
        ensures
            m == y_max(total_rows as nat, self.height),
    {
        if total_rows <= self.height as usize {
            0
        } else {
            let d = total_rows - self.height as usize;
            if d > u16::MAX as usize {
                u16::MAX
            } else {
                d as u16
            }
        }
    }

    /// The largest horizontal offset for content `max_x` columns wide.
    pub fn scroll_x_max(&self, max_x: u16) -> (m: u16)
        ensures
            m == x_max(max_x, self.width),
    {
        if max_x <= self.width {
            0
        } else {
            max_x - self.width
        }
    }

    pub fn scroll_down(&mut self, total_rows: usize)
        ensures
            *final(self) == old(self).scrolled_down(total_rows as nat),
    {
        let max = self.scroll_y_max(total_rows);
        if (self.scroll_y as u32) + 1 < max as u32 {
            self.scroll_y = self.scroll_y + 1;
        } else {
            self.scroll_y = max;
        }
    }

    pub fn scroll_up(&mut self)
        ensures
            *final(self) == old(self).scrolled_up(),
    {
        if self.scroll_y > 0 {
            self.scroll_y = self.scroll_y - 1;
        }
    }

    pub fn scroll_right(&mut self, step: u16, max_x: u16)
        ensures
            *final(self) == old(self).scrolled_right(step, max_x),
    {
        let max = self.scroll_x_max(max_x);
        if (self.scroll_x as u32) + (step as u32) < max as u32 {
            self.scroll_x = self.scroll_x + step;
        } else {
            self.scroll_x = max;
        }
    }

    pub fn scroll_left(&mut self, step: u16)
        ensures
            *final(self) == old(self).scrolled_left(step),
    {
        if self.scroll_x <= step {
            self.scroll_x = 0;
        } else {
            self.scroll_x = self.scroll_x - step;
        }
    }

    pub fn scroll_to_left(&mut self)
        ensures
            *final(self) == old(self).with_scroll_x(0),
    {
        self.scroll_x = 0;
    }

    pub fn scroll_to_right(&mut self, max_x: u16)
        ensures
            *final(self) == old(self).with_scroll_x(x_max(max_x, old(self).width)),
    {
        self.scroll_x = self.scroll_x_max(max_x);
    }

    /// Bring both offsets back within their limits (after a resize or edit).
    pub fn clamp(&mut self, total_rows: usize, max_x: u16)
        ensures
            *final(self) == old(self).clamped(total_rows as nat, max_x),
    {
        let my = self.scroll_y_max(total_rows);
        if self.scroll_y > my {
            self.scroll_y = my;
        }
        let mx = self.scroll_x_max(max_x);
        if self.scroll_x > mx {
            self.scroll_x = mx;
        }
    }
}

} // verus!
