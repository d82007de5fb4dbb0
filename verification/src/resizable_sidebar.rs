//! The sidebar: resizing by dragging its border, collapsing and restoring it.
use vstd::prelude::*;
use crate::layout::{LayoutConfig, default_layout, clamp_width, clamp_sidebar_width, terminal_width_spec, MIN_SIDEBAR_WIDTH, DEFAULT_SIDEBAR_WIDTH};

verus! {

/// Where a resize of the sidebar stands.
#[derive(Clone, Copy, Debug, PartialEq, Eq, Structural)]
pub enum ResizeState {
    Idle,
    /// The mouse is on the resize border.
    Hovering,
    /// A drag is under way; it started at `start_x` with the sidebar `start_width` wide.
    Dragging { start_x: i32, start_width: u32 },
}

impl Default for ResizeState {
    fn default() -> (r: Self)
        ensures
            r == ResizeState::Idle,
    {
        ResizeState::Idle
    }
}

/// Resizable sidebar controller.
#[derive(Clone, Copy, Debug)]
pub struct ResizableSidebar {
    pub layout: LayoutConfig,
    pub resize_state: ResizeState,
    /// Width before collapsing, restored on the next toggle.
    pub width_before_collapse: Option<u32>,
    /// Whether the sidebar is collapsed.
    pub is_collapsed: bool,
    /// Width of the resize handle in pixels.
    pub resize_handle_width: u32,
}

/// The sidebar width after a drag from `start_x` (width `start_width`) to `mouse_x`.
pub open spec fn dragged_width(start_x: i32, start_width: u32, mouse_x: i32) -> u32 {
    let delta = mouse_x - start_x;
    let w: int = start_width + delta;
    clamp_width(if w < 0 { 0 } else if w > u32::MAX { u32::MAX } else { w as u32 })
}

/// The sidebar after a collapse or restore.
pub open spec fn toggled_sidebar(s: ResizableSidebar) -> ResizableSidebar {
    if s.is_collapsed {
        ResizableSidebar {
            layout: LayoutConfig {
                sidebar_width: clamp_width(match s.width_before_collapse { Some(w) => w, None => DEFAULT_SIDEBAR_WIDTH }),
                ..s.layout
            },
            is_collapsed: false,
            ..s
        }
    } else {
        ResizableSidebar {
            layout: LayoutConfig { sidebar_width: 0, ..s.layout },
            width_before_collapse: Some(s.layout.sidebar_width),
            is_collapsed: true,
            ..s
        }
    }
}

impl ResizableSidebar {
    /// A sidebar with the default layout, idle, expanded, with a 4-pixel handle.
    pub fn new() -> (r: Self)
        ensures
            r.layout == default_layout(),
            r.resize_state == ResizeState::Idle,
            r.width_before_collapse is None,
            !r.is_collapsed,
            r.resize_handle_width == 4,
    {
        ResizableSidebar::with_layout(LayoutConfig::new())
    }

    /// A sidebar with the given layout, idle, expanded, with a 4-pixel handle.
    pub fn with_layout(layout: LayoutConfig) -> (r: Self)
        ensures
            r == (ResizableSidebar {
                layout,
                resize_state: ResizeState::Idle,
                width_before_collapse: None,
                is_collapsed: false,
                resize_handle_width: 4,
            }),
    {
        ResizableSidebar {
            layout,
            resize_state: ResizeState::Idle,
            width_before_collapse: None,
            is_collapsed: false,
            resize_handle_width: 4,
        }
    }

    /// Whether `mouse_x` is within the handle width of the sidebar's right edge; never
    /// when collapsed.
    pub fn is_on_resize_border(&self, mouse_x: i32) -> (r: bool)
        requires
            self.layout.sidebar_width + self.resize_handle_width <= i32::MAX,
        ensures
            r == (!self.is_collapsed
                && self.layout.sidebar_width - self.resize_handle_width <= mouse_x
                && mouse_x <= self.layout.sidebar_width + self.resize_handle_width),
    {
        if self.is_collapsed {
            return false;
        }
        let sidebar_right = self.layout.sidebar_width as i32;
        let tolerance = self.resize_handle_width as i32;
        mouse_x >= sidebar_right - tolerance && mouse_x <= sidebar_right + tolerance
    }

    /// Starts a drag at `mouse_x`.
    pub fn start_drag(&mut self, mouse_x: i32)
        ensures
            *final(self) == (ResizableSidebar {
                resize_state: ResizeState::Dragging { start_x: mouse_x, start_width: old(self).layout.sidebar_width },
                ..*old(self)
            }),
    {
        self.resize_state = ResizeState::Dragging { start_x: mouse_x, start_width: self.layout.sidebar_width };
    }

    /// Follows the mouse during a drag: the width changes by how far the mouse moved
    /// (within bounds) and the sidebar is expanded. Without a drag nothing changes.
    pub fn update_drag(&mut self, mouse_x: i32)
        requires
            old(self).resize_state matches ResizeState::Dragging { start_x, start_width: _ }
                ==> i32::MIN < mouse_x - start_x <= i32::MAX,
        ensures
            match old(self).resize_state {
                ResizeState::Dragging { start_x, start_width } => *final(self) == (ResizableSidebar {
                    layout: LayoutConfig { sidebar_width: dragged_width(start_x, start_width, mouse_x), ..old(self).layout },
                    is_collapsed: false,
                    ..*old(self)
                }),
                _ => *final(self) == *old(self),
            },
    {
        match self.resize_state {
            ResizeState::Dragging { start_x, start_width } => {
                let delta = mouse_x - start_x;
                let new_width = if delta >= 0 {
                    start_width.saturating_add(delta as u32)
                } else {
                    start_width.saturating_sub((-delta) as u32)
                };
                self.layout.set_sidebar_width(new_width);
                self.is_collapsed = false;
            },
            _ => {},
        }
    }

    /// Ends a drag.
    pub fn end_drag(&mut self)
        ensures
            *final(self) == (ResizableSidebar { resize_state: ResizeState::Idle, ..*old(self) }),
    {
        self.resize_state = ResizeState::Idle;
    }

    /// Enters the hover state from idle, or leaves it; a drag is not disturbed.
    pub fn set_hovering(&mut self, hovering: bool)
        ensures
            final(self).resize_state == (match (old(self).resize_state, hovering) {
                (ResizeState::Idle, true) => ResizeState::Hovering,
                (ResizeState::Hovering, false) => ResizeState::Idle,
                (s, _) => s,
            }),
            *final(self) == (ResizableSidebar { resize_state: final(self).resize_state, ..*old(self) }),
    {
        match (self.resize_state, hovering) {
            (ResizeState::Idle, true) => {
                self.resize_state = ResizeState::Hovering;
            },
            (ResizeState::Hovering, false) => {
                self.resize_state = ResizeState::Idle;
            },
            _ => {},
        }
    }

    /// Collapses an expanded sidebar, remembering its width, or restores a collapsed one
    /// to the remembered width (250 when none), within bounds.
    pub fn toggle_sidebar(&mut self)
        ensures
            *final(self) == toggled_sidebar(*old(self)),
    {
        if self.is_collapsed {
            let restored = match self.width_before_collapse {
                Some(w) => w,
                None => DEFAULT_SIDEBAR_WIDTH,
            };
            self.layout.sidebar_width = clamp_sidebar_width(restored);
            self.is_collapsed = false;
        } else {
            self.width_before_collapse = Some(self.layout.sidebar_width);
            self.layout.sidebar_width = 0;
            self.is_collapsed = true;
        }
    }

    /// A double click collapses or restores.
    pub fn on_double_click(&mut self)
        ensures
            *final(self) == toggled_sidebar(*old(self)),
    {
        self.toggle_sidebar();
    }

    /// The shown width: 0 when collapsed.
    pub fn sidebar_width(&self) -> (r: u32)
        ensures
            r == (if self.is_collapsed { 0 } else { self.layout.sidebar_width }),
    {
        if self.is_collapsed { 0 } else { self.layout.sidebar_width }
    }

    /// Whether a drag is under way.
    pub fn is_dragging(&self) -> (r: bool)
        ensures
            r == (self.resize_state is Dragging),
    {
        match self.resize_state {
            ResizeState::Dragging { .. } => true,
            _ => false,
        }
    }

    /// Whether the mouse hovers on the border.
    pub fn is_hovering(&self) -> (r: bool)
        ensures
            r == (self.resize_state is Hovering),
    {
        match self.resize_state {
            ResizeState::Hovering => true,
            _ => false,
        }
    }

    /// The mouse cursor: `col-resize` while hovering or dragging, else `default`.
    pub fn cursor_style(&self) -> (r: &'static str)
        ensures
            r@ == (if self.resize_state is Idle { "default"@ } else { "col-resize"@ }),
    {
        if self.is_dragging() || self.is_hovering() { "col-resize" } else { "default" }
    }

    /// Sets the window size (see `LayoutConfig::update_window_size`).
    pub fn update_window_size(&mut self, width: u32, height: u32)
        ensures
            final(self).layout.window_size == (width, height),
            final(self).layout.window_position == old(self).layout.window_position,
            final(self).layout.sidebar_width == (if old(self).layout.sidebar_width >= width {
                if width >= 50 && width - 50 >= MIN_SIDEBAR_WIDTH { (width - 50) as u32 } else { MIN_SIDEBAR_WIDTH }
            } else {
                old(self).layout.sidebar_width
            }),
            final(self).resize_state == old(self).resize_state,
            final(self).width_before_collapse == old(self).width_before_collapse,
            final(self).is_collapsed == old(self).is_collapsed,
            final(self).resize_handle_width == old(self).resize_handle_width,
    {
        self.layout.update_window_size(width, height);
    }

    /// Width left for terminals.
    pub fn terminal_view_width(&self) -> (r: u32)
        ensures
            r == terminal_width_spec(self.layout.window_size.0, self.layout.sidebar_width),
    {
        self.layout.terminal_view_width()
    }
}

impl Default for ResizableSidebar {
    fn default() -> (r: Self)
        ensures
            r.layout == default_layout(),
            r.resize_state == ResizeState::Idle,
            r.width_before_collapse is None,
            !r.is_collapsed,
            r.resize_handle_width == 4,
    {
        ResizableSidebar::new()
    }
}

/// Collapsing and restoring gives back the width the sidebar had, when it was within
/// bounds.
pub proof fn law_collapse_restore(s: ResizableSidebar)
    requires
        !s.is_collapsed,
        MIN_SIDEBAR_WIDTH <= s.layout.sidebar_width <= crate::layout::MAX_SIDEBAR_WIDTH,
    ensures
        toggled_sidebar(toggled_sidebar(s)).layout == s.layout,
        !toggled_sidebar(toggled_sidebar(s)).is_collapsed,
        toggled_sidebar(s).layout.sidebar_width == 0,
{
}

/// A drag that returns to where it started leaves the width unchanged (within bounds).
pub proof fn law_drag_back(start_x: i32, start_width: u32)
    ensures
        dragged_width(start_x, start_width, start_x) == clamp_width(start_width),
{
}

} // verus!
