//! Window layout: sidebar width within bounds, window size and position.
use vstd::prelude::*;

verus! {

/// Layout of the main window.
#[derive(Clone, Copy, Debug, PartialEq, Eq)]
pub struct LayoutConfig {
    /// Sidebar width in pixels.
    pub sidebar_width: u32,
    /// Window size (width, height) in pixels.
    pub window_size: (u32, u32),
    /// Window position (x, y) in screen coordinates.
    pub window_position: (i32, i32),
}

/// Smallest sidebar width in pixels.
pub const MIN_SIDEBAR_WIDTH: u32 = 200;

/// Largest sidebar width in pixels.
pub const MAX_SIDEBAR_WIDTH: u32 = 400;

/// Sidebar width when it is shown again without a remembered width.
pub const DEFAULT_SIDEBAR_WIDTH: u32 = 250;

/// `w` brought within the sidebar bounds.
pub open spec fn clamp_width(w: u32) -> u32 {
    if w < MIN_SIDEBAR_WIDTH { MIN_SIDEBAR_WIDTH } else if w > MAX_SIDEBAR_WIDTH { MAX_SIDEBAR_WIDTH } else { w }
}

/// `w` brought within the sidebar bounds.
pub fn clamp_sidebar_width(w: u32) -> (r: u32)
    ensures
        r == clamp_width(w),
{
    if w < MIN_SIDEBAR_WIDTH { MIN_SIDEBAR_WIDTH } else if w > MAX_SIDEBAR_WIDTH { MAX_SIDEBAR_WIDTH } else { w }
}

/// Width left for terminals beside a sidebar of `sidebar` pixels in a window `window`
/// pixels wide.
pub open spec fn terminal_width_spec(window: u32, sidebar: u32) -> u32 {
    if window > sidebar { (window - sidebar) as u32 } else { 0 }
}

/// The default layout: sidebar 250, window 1200 by 800 at (100, 100).
pub open spec fn default_layout() -> LayoutConfig {
    LayoutConfig { sidebar_width: 250, window_size: (1200, 800), window_position: (100, 100) }
}

/// The layout with a shown sidebar hidden (width 0), or a hidden one shown at width 250.
pub open spec fn toggled(c: LayoutConfig) -> LayoutConfig {
    LayoutConfig { sidebar_width: if c.sidebar_width > 0 { 0 } else { DEFAULT_SIDEBAR_WIDTH }, ..c }
}

impl LayoutConfig {
    /// Smallest sidebar width in pixels.
    pub const MIN_SIDEBAR_WIDTH: u32 = 200;
    /// Largest sidebar width in pixels.
    pub const MAX_SIDEBAR_WIDTH: u32 = 400;

    /// The default layout: sidebar 250, window 1200 by 800 at (100, 100).
    pub fn new() -> (r: Self)
        ensures
            r == default_layout(),
    {
        LayoutConfig { sidebar_width: 250, window_size: (1200, 800), window_position: (100, 100) }
    }

    /// A layout with the given values, the sidebar width brought within bounds.
    pub fn with_values(sidebar_width: u32, window_width: u32, window_height: u32, pos_x: i32, pos_y: i32) -> (r: Self)
        ensures
            r == (LayoutConfig {
                sidebar_width: clamp_width(sidebar_width),
                window_size: (window_width, window_height),
                window_position: (pos_x, pos_y),
            }),
    {
        let mut config = LayoutConfig {
            sidebar_width,
            window_size: (window_width, window_height),
            window_position: (pos_x, pos_y),
        };
        config.normalize();
        config
    }

    /// Brings the sidebar width within bounds.
    pub fn normalize(&mut self)
        ensures
            *final(self) == (LayoutConfig { sidebar_width: clamp_width(old(self).sidebar_width), ..*old(self) }),
    {
        self.sidebar_width = clamp_sidebar_width(self.sidebar_width);
    }

    /// Width left for terminals.
    pub fn terminal_view_width(&self) -> (r: u32)
        ensures
            r == terminal_width_spec(self.window_size.0, self.sidebar_width),
    {
        let window_width = self.window_size.0;
        if window_width > self.sidebar_width { window_width - self.sidebar_width } else { 0 }
    }

    /// Height left for terminals: the window height.
    pub fn terminal_view_height(&self) -> (r: u32)
        ensures
            r == self.window_size.1,
    {
        self.window_size.1
    }

    /// Sets the window size; a sidebar at least as wide as the window becomes 50 pixels
    /// narrower than it, but no narrower than the minimum.
    pub fn update_window_size(&mut self, width: u32, height: u32)
        ensures
            final(self).window_size == (width, height),
            final(self).window_position == old(self).window_position,
            final(self).sidebar_width == (if old(self).sidebar_width >= width {
                if width >= 50 && width - 50 >= MIN_SIDEBAR_WIDTH { (width - 50) as u32 } else { MIN_SIDEBAR_WIDTH }
            } else {
                old(self).sidebar_width
            }),
    {
        self.window_size = (width, height);
        if self.sidebar_width >= width {
            let w = width.saturating_sub(50);
            self.sidebar_width = if w >= MIN_SIDEBAR_WIDTH { w } else { MIN_SIDEBAR_WIDTH };
        }
    }

    /// Sets the window position.
    pub fn update_window_position(&mut self, x: i32, y: i32)
        ensures
            *final(self) == (LayoutConfig { window_position: (x, y), ..*old(self) }),
    {
        self.window_position = (x, y);
    }

    /// Sets the sidebar width, brought within bounds.
    pub fn set_sidebar_width(&mut self, width: u32)
        ensures
            *final(self) == (LayoutConfig { sidebar_width: clamp_width(width), ..*old(self) }),
    {
        self.sidebar_width = clamp_sidebar_width(width);
    }

    /// Whether the sidebar is shown (wider than 0).
    pub fn is_sidebar_visible(&self) -> (r: bool)
        ensures
            r == (self.sidebar_width > 0),
    {
        self.sidebar_width > 0
    }

    /// Hides a shown sidebar (width 0), or shows a hidden one at width 250.
    pub fn toggle_sidebar(&mut self)
        ensures
            *final(self) == toggled(*old(self)),
    {
        if self.is_sidebar_visible() {
            self.sidebar_width = 0;
        } else {
            self.sidebar_width = DEFAULT_SIDEBAR_WIDTH;
        }
    }
}

impl Default for LayoutConfig {
    fn default() -> (r: Self)
        ensures
            r == default_layout(),
    {
        LayoutConfig::new()
    }
}

/// The sidebar width is always within bounds after it is set, whatever was asked.
pub proof fn law_set_width_within_bounds(w: u32)
    ensures
        MIN_SIDEBAR_WIDTH <= clamp_width(w) <= MAX_SIDEBAR_WIDTH,
        MIN_SIDEBAR_WIDTH <= w <= MAX_SIDEBAR_WIDTH ==> clamp_width(w) == w,
        clamp_width(clamp_width(w)) == clamp_width(w),
{
}

/// Sidebar and terminal area never take more than the window: their widths add up to the
/// window width whenever the sidebar fits.
pub proof fn law_widths_fill_window(window: u32, sidebar: u32)
    ensures
        sidebar <= window ==> sidebar + terminal_width_spec(window, sidebar) == window,
        terminal_width_spec(window, sidebar) <= window,
{
}

/// Toggling the sidebar twice shows it again at 250 when it was shown; from hidden it
/// comes back hidden.
pub proof fn law_toggle_twice(c: LayoutConfig)
    ensures
        c.sidebar_width > 0 ==> toggled(toggled(c)) == (LayoutConfig { sidebar_width: DEFAULT_SIDEBAR_WIDTH, ..c }),
        c.sidebar_width == 0 ==> toggled(toggled(c)) == c,
{
}

/// Number of panes of a grid of `rows` by `cols`.
pub fn grid_pane_count(rows: u32, cols: u32) -> (r: u32)
    requires
        rows * cols <= u32::MAX,
    ensures
        r == rows * cols,
{
    rows * cols
}

/// Sizes of the panes of a grid of `rows` by `cols` in a container of `width` by
/// `height`: every pane gets `width / cols` by `height / rows`.
pub fn grid_pane_sizes(width: u32, height: u32, rows: u32, cols: u32) -> (r: Vec<(u32, u32)>)
    requires
        rows > 0,
        cols > 0,
        rows * cols <= u32::MAX,
    ensures
        r@.len() == rows * cols,
        forall|i: int| 0 <= i < r@.len() ==> r@[i] == (width / cols, height / rows),
{
    let n = grid_pane_count(rows, cols);
    let size = (width / cols, height / rows);
    let mut v: Vec<(u32, u32)> = Vec::new();
    let mut i: u32 = 0;
    while i < n
        invariant
            i <= n,
            v@.len() == i,
            forall|k: int| 0 <= k < v@.len() ==> v@[k] == size,
        decreases n - i,
    {
        v.push(size);
        i = i + 1;
    }
    v
}

} // verus!
