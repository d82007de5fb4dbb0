//! Placeholders shown where there is nothing to show yet, and their text rendering.
use vstd::prelude::*;
use crate::text::{extend_str, string_from_chars};

verus! {

/// Visual style of a placeholder.
#[derive(Clone, Copy, Debug, PartialEq, Eq, Structural)]
pub enum EmptyStateStyle {
    Minimal,
    Illustrated,
    Card,
}

impl Default for EmptyStateStyle {
    fn default() -> (r: Self)
        ensures
            r == EmptyStateStyle::Illustrated,
    {
        EmptyStateStyle::Illustrated
    }
}

/// Which parts of a placeholder are shown.
#[derive(Clone, Copy, Debug, PartialEq, Eq, Structural)]
pub struct EmptyStateConfig {
    pub style: EmptyStateStyle,
    pub show_icon: bool,
    pub show_title: bool,
    pub show_description: bool,
    pub show_cta: bool,
}

/// Everything shown, illustrated.
pub open spec fn default_config() -> EmptyStateConfig {
    EmptyStateConfig { style: EmptyStateStyle::Illustrated, show_icon: true, show_title: true, show_description: true, show_cta: true }
}

impl Default for EmptyStateConfig {
    fn default() -> (r: Self)
        ensures
            r == default_config(),
    {
        EmptyStateConfig { style: EmptyStateStyle::Illustrated, show_icon: true, show_title: true, show_description: true, show_cta: true }
    }
}

/// What a placeholder stands for.
#[derive(Clone, Copy, Debug, PartialEq, Eq, Structural)]
pub enum EmptyStateType {
    NoWorkspaceSelected,
    NoNotifications,
    EmptyWorktreeList,
    NoResults,
    Loading,
    Error,
}

/// A placeholder: icon, title, description and an optional call to action.
#[derive(Clone, Copy, Debug)]
pub struct EmptyState {
    pub state_type: EmptyStateType,
    pub icon: &'static str,
    pub title: &'static str,
    pub description: &'static str,
    pub cta_text: Option<&'static str>,
    pub config: EmptyStateConfig,
}

/// A placeholder as plain values.
pub struct EmptyStateView {
    pub state_type: EmptyStateType,
    pub icon: Seq<char>,
    pub title: Seq<char>,
    pub description: Seq<char>,
    pub cta_text: Option<Seq<char>>,
    pub config: EmptyStateConfig,
}

impl View for EmptyState {
    type V = EmptyStateView;

    open spec fn view(&self) -> EmptyStateView {
        EmptyStateView {
            state_type: self.state_type,
            icon: self.icon@,
            title: self.title@,
            description: self.description@,
            cta_text: match self.cta_text { Some(c) => Some(c@), None => None },
            config: self.config,
        }
    }
}

/// Whether the call to action is shown: enabled and present.
pub open spec fn has_cta_spec(s: EmptyStateView) -> bool {
    s.config.show_cta && s.cta_text is Some
}

/// The text rendering: icon and an empty line, title, description, then the call to
/// action in brackets after an empty line, each where shown.
pub open spec fn render_spec(s: EmptyStateView) -> Seq<char> {
    (if s.config.show_icon { s.icon + "\n\n"@ } else { Seq::empty() })
        + (if s.config.show_title { s.title + "\n"@ } else { Seq::empty() })
        + (if s.config.show_description { s.description + "\n"@ } else { Seq::empty() })
        + (if has_cta_spec(s) { "\n[ "@ + s.cta_text->0 + " ]"@ } else { Seq::empty() })
}

impl EmptyState {
    /// "No workspace selected".
    pub fn no_workspace_selected() -> (r: Self)
        ensures
            r@ == (EmptyStateView {
                state_type: EmptyStateType::NoWorkspaceSelected,
                icon: "📂"@,
                title: "No Workspace Selected"@,
                description: "Select a git repository to get started with pmux."@,
                cta_text: Some("Open Workspace"@),
                config: default_config(),
            }),
    {
        EmptyState {
            state_type: EmptyStateType::NoWorkspaceSelected,
            icon: "📂",
            title: "No Workspace Selected",
            description: "Select a git repository to get started with pmux.",
            cta_text: Some("Open Workspace"),
            config: EmptyStateConfig::default(),
        }
    }

    /// "No notifications", without a call to action.
    pub fn no_notifications() -> (r: Self)
        ensures
            r@ == (EmptyStateView {
                state_type: EmptyStateType::NoNotifications,
                icon: "🔕"@,
                title: "No Notifications"@,
                description: "You're all caught up! Desktop notifications will appear here when agents need attention."@,
                cta_text: None,
                config: EmptyStateConfig { show_cta: false, ..default_config() },
            }),
    {
        EmptyState {
            state_type: EmptyStateType::NoNotifications,
            icon: "🔕",
            title: "No Notifications",
            description: "You're all caught up! Desktop notifications will appear here when agents need attention.",
            cta_text: None,
            config: EmptyStateConfig { show_cta: false, ..EmptyStateConfig::default() },
        }
    }

    /// "No worktrees yet".
    pub fn empty_worktree_list() -> (r: Self)
        ensures
            r@ == (EmptyStateView {
                state_type: EmptyStateType::EmptyWorktreeList,
                icon: "🌳"@,
                title: "No Worktrees Yet"@,
                description: "Create your first branch to start working with AI agents in parallel."@,
                cta_text: Some("New Branch (⌘⇧N)"@),
                config: default_config(),
            }),
    {
        EmptyState {
            state_type: EmptyStateType::EmptyWorktreeList,
            icon: "🌳",
            title: "No Worktrees Yet",
            description: "Create your first branch to start working with AI agents in parallel.",
            cta_text: Some("New Branch (⌘⇧N)"),
            config: EmptyStateConfig::default(),
        }
    }

    /// "No results" of a search or filter.
    pub fn no_results() -> (r: Self)
        ensures
            r@ == (EmptyStateView {
                state_type: EmptyStateType::NoResults,
                icon: "🔍"@,
                title: "No Results Found"@,
                description: "Try adjusting your search or filters."@,
                cta_text: Some("Clear Filters"@),
                config: default_config(),
            }),
    {
        EmptyState {
            state_type: EmptyStateType::NoResults,
            icon: "🔍",
            title: "No Results Found",
            description: "Try adjusting your search or filters.",
            cta_text: Some("Clear Filters"),
            config: EmptyStateConfig::default(),
        }
    }

    /// "Loading", without a call to action.
    pub fn loading() -> (r: Self)
        ensures
            r@ == (EmptyStateView {
                state_type: EmptyStateType::Loading,
                icon: "⏳"@,
                title: "Loading..."@,
                description: "Please wait while we set things up."@,
                cta_text: None,
                config: EmptyStateConfig { show_cta: false, ..default_config() },
            }),
    {
        EmptyState {
            state_type: EmptyStateType::Loading,
            icon: "⏳",
            title: "Loading...",
            description: "Please wait while we set things up.",
            cta_text: None,
            config: EmptyStateConfig { show_cta: false, ..EmptyStateConfig::default() },
        }
    }

    /// An error with `message` as description and "Retry" as call to action.
    pub fn error(message: &'static str) -> (r: Self)
        ensures
            r@ == (EmptyStateView {
                state_type: EmptyStateType::Error,
                icon: "⚠️"@,
                title: "Something Went Wrong"@,
                description: message@,
                cta_text: Some("Retry"@),
                config: default_config(),
            }),
    {
        EmptyState {
            state_type: EmptyStateType::Error,
            icon: "⚠️",
            title: "Something Went Wrong",
            description: message,
            cta_text: Some("Retry"),
            config: EmptyStateConfig::default(),
        }
    }

    /// CSS class of the style.
    pub fn style_class(&self) -> (r: &'static str)
        ensures
            r@ == (match self.config.style {
                EmptyStateStyle::Minimal => "empty-state-minimal"@,
                EmptyStateStyle::Illustrated => "empty-state-illustrated"@,
                EmptyStateStyle::Card => "empty-state-card"@,
            }),
    {
        match self.config.style {
            EmptyStateStyle::Minimal => "empty-state-minimal",
            EmptyStateStyle::Illustrated => "empty-state-illustrated",
            EmptyStateStyle::Card => "empty-state-card",
        }
    }

    /// Whether the call to action is shown.
    pub fn has_cta(&self) -> (r: bool)
        ensures
            r == has_cta_spec(self@),
    {
        self.config.show_cta && self.cta_text.is_some()
    }
}

/// Renders placeholders as text.
pub struct EmptyStateRenderer;

impl EmptyStateRenderer {
    /// The full text rendering.
    pub fn render(state: &EmptyState) -> (r: String)
        ensures
            r@ == render_spec(state@),
    {
        let mut out: Vec<char> = Vec::new();
        let ghost s = state@;
        if state.config.show_icon {
            extend_str(&mut out, state.icon);
            extend_str(&mut out, "\n\n");
        }
        let ghost a = out@;
        if state.config.show_title {
            extend_str(&mut out, state.title);
            extend_str(&mut out, "\n");
        }
        let ghost b = out@;
        if state.config.show_description {
            extend_str(&mut out, state.description);
            extend_str(&mut out, "\n");
        }
        let ghost c = out@;
        if state.has_cta() {
            match state.cta_text {
                Some(t) => {
                    extend_str(&mut out, "\n[ ");
                    extend_str(&mut out, t);
                    extend_str(&mut out, " ]");
                },
                None => {},
            }
        }
        proof {
            assert(a =~= (if s.config.show_icon { s.icon + "\n\n"@ } else { Seq::empty() }));
            assert(out@ =~= render_spec(s));
        }
        string_from_chars(&out)
    }

    /// Icon and title on one line.
    pub fn render_compact(state: &EmptyState) -> (r: String)
        ensures
            r@ == state@.icon + " "@ + state@.title,
    {
        let mut out: Vec<char> = Vec::new();
        extend_str(&mut out, state.icon);
        extend_str(&mut out, " ");
        extend_str(&mut out, state.title);
        string_from_chars(&out)
    }
}

} // verus!
