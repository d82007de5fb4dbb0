//! Cursor coordinates: engine-logical (with scrollback), viewport-visual, and
//! tmux pane-relative.
use vstd::prelude::*;

verus! {

/// Cursor from the engine; the line is negative inside the scrollback.
#[derive(Debug, Clone, Copy)]
pub struct LogicalCursor {
    pub line: i32,
    pub col: usize,
}

/// Viewport-relative cursor, used for painting.
#[derive(Debug, Clone, Copy)]
pub struct VisualCursor {
    pub line: i32,
    pub col: usize,
}

/// Pane-relative cursor for tmux commands.
#[derive(Debug, Clone, Copy)]
pub struct TmuxCursor {
    pub row: usize,
    pub col: usize,
}

impl LogicalCursor {
    /// Viewport-relative position: `line - display_offset`.
    pub fn to_visual(self, display_offset: usize) -> (r: VisualCursor)
        requires
            display_offset <= i32::MAX,
            self.line - display_offset >= i32::MIN,
        ensures
            r.line == self.line - display_offset,
            r.col == self.col,
    {
        VisualCursor { line: self.line - display_offset as i32, col: self.col }
    }

    /// Pane row: `line + display_offset`, clamped at 0.
    pub fn to_tmux(self, display_offset: usize) -> (r: TmuxCursor)
        requires
            display_offset <= i32::MAX,
            self.line + display_offset <= i32::MAX,
        ensures
            r.row == (if self.line + display_offset < 0 { 0 } else { self.line + display_offset }),
            r.col == self.col,
    {
        let v = self.line + display_offset as i32;
        let row: usize = if v < 0 { 0 } else { v as usize };
        TmuxCursor { row, col: self.col }
    }
}

/// Converting to the viewport and back to pane rows returns the original line when it is
/// not in the scrollback.
pub proof fn law_visual_tmux_roundtrip(c: LogicalCursor, off: usize)
    requires
        c.line >= 0,
        off <= i32::MAX,
        c.line - off >= i32::MIN,
    ensures
        (c.line - off) + off == c.line,
{
}

} // verus!
