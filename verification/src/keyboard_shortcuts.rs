//! Keyboard shortcuts: the default bindings and a registry that maps shortcuts to actions.
use vstd::prelude::*;
use crate::text::{chars_of, str_equal, string_of};

verus! {

/// Shortcut categories.
#[derive(Clone, Copy, Debug, PartialEq, Eq, Hash, Structural)]
pub enum ShortcutCategory {
    General,
    Navigation,
    Workspace,
    View,
}

/// Shortcut actions.
#[derive(Clone, Copy, Debug, PartialEq, Eq, Hash, Structural)]
pub enum ShortcutAction {
    NewWorkspace,
    NewBranch,
    CloseTab,
    ToggleSidebar,
    OpenNotifications,
    ShowHelp,
    SwitchTab1,
    SwitchTab2,
    SwitchTab3,
    SwitchTab4,
    SwitchTab5,
    SwitchTab6,
    SwitchTab7,
    SwitchTab8,
    JumpToUnread,
    VerticalSplit,
    HorizontalSplit,
    ToggleMute,
    Refresh,
    ZoomIn,
    ZoomOut,
    ResetZoom,
}

/// A key binding.
#[derive(Clone, Debug)]
pub struct KeyBinding {
    pub action: ShortcutAction,
    pub name: String,
    pub shortcut: String,
    pub description: String,
    pub category: ShortcutCategory,
}

/// A key binding as plain values.
pub struct BindingView {
    pub action: ShortcutAction,
    pub name: Seq<char>,
    pub shortcut: Seq<char>,
    pub description: Seq<char>,
    pub category: ShortcutCategory,
}

impl View for KeyBinding {
    type V = BindingView;

    open spec fn view(&self) -> BindingView {
        BindingView { action: self.action, name: self.name@, shortcut: self.shortcut@, description: self.description@, category: self.category }
    }
}

/// Binding view from its parts.
pub open spec fn bv(action: ShortcutAction, name: Seq<char>, shortcut: Seq<char>, description: Seq<char>, category: ShortcutCategory) -> BindingView {
    BindingView { action, name, shortcut, description, category }
}

/// The default bindings, in order.
pub open spec fn default_bindings() -> Seq<BindingView> {
    seq![
        bv(ShortcutAction::NewWorkspace, "New Workspace"@, "⌘N"@, "Create a new workspace"@, ShortcutCategory::General),
        bv(ShortcutAction::NewBranch, "New Branch"@, "⌘⇧N"@, "Create a new branch with worktree"@, ShortcutCategory::General),
        bv(ShortcutAction::CloseTab, "Close Tab"@, "⌘W"@, "Close the current tab"@, ShortcutCategory::General),
        bv(ShortcutAction::ToggleSidebar, "Toggle Sidebar"@, "⌘B"@, "Show or hide the sidebar"@, ShortcutCategory::General),
        bv(ShortcutAction::OpenNotifications, "Open Notifications"@, "⌘I"@, "Open the notifications panel"@, ShortcutCategory::General),
        bv(ShortcutAction::ShowHelp, "Show Help"@, "⌘?"@, "Show keyboard shortcuts help"@, ShortcutCategory::General),
        bv(ShortcutAction::SwitchTab1, "Switch to Tab 1"@, "⌘1"@, "Switch to the first tab"@, ShortcutCategory::Navigation),
        bv(ShortcutAction::SwitchTab2, "Switch to Tab 2"@, "⌘2"@, "Switch to the second tab"@, ShortcutCategory::Navigation),
        bv(ShortcutAction::SwitchTab3, "Switch to Tab 3"@, "⌘3"@, "Switch to the third tab"@, ShortcutCategory::Navigation),
        bv(ShortcutAction::SwitchTab4, "Switch to Tab 4"@, "⌘4"@, "Switch to the fourth tab"@, ShortcutCategory::Navigation),
        bv(ShortcutAction::SwitchTab5, "Switch to Tab 5"@, "⌘5"@, "Switch to the fifth tab"@, ShortcutCategory::Navigation),
        bv(ShortcutAction::SwitchTab6, "Switch to Tab 6"@, "⌘6"@, "Switch to the sixth tab"@, ShortcutCategory::Navigation),
        bv(ShortcutAction::SwitchTab7, "Switch to Tab 7"@, "⌘7"@, "Switch to the seventh tab"@, ShortcutCategory::Navigation),
        bv(ShortcutAction::SwitchTab8, "Switch to Tab 8"@, "⌘8"@, "Switch to the eighth tab"@, ShortcutCategory::Navigation),
        bv(ShortcutAction::JumpToUnread, "Jump to Unread"@, "⌘⇧U"@, "Jump to the most recent unread notification"@, ShortcutCategory::Navigation),
        bv(ShortcutAction::VerticalSplit, "Vertical Split"@, "⌘D"@, "Split pane vertically"@, ShortcutCategory::Workspace),
        bv(ShortcutAction::HorizontalSplit, "Horizontal Split"@, "⌘⇧D"@, "Split pane horizontally"@, ShortcutCategory::Workspace),
        bv(ShortcutAction::ToggleMute, "Toggle Mute"@, "⌘M"@, "Mute or unmute notifications for current worktree"@, ShortcutCategory::Workspace),
        bv(ShortcutAction::Refresh, "Refresh"@, "⌘R"@, "Refresh the current view"@, ShortcutCategory::View),
        bv(ShortcutAction::ZoomIn, "Zoom In"@, "⌘+"@, "Increase zoom level"@, ShortcutCategory::View),
        bv(ShortcutAction::ZoomOut, "Zoom Out"@, "⌘-"@, "Decrease zoom level"@, ShortcutCategory::View),
        bv(ShortcutAction::ResetZoom, "Reset Zoom"@, "⌘0"@, "Reset zoom to default"@, ShortcutCategory::View)
    ]
}

/// Views of a sequence of bindings.
pub open spec fn bindings_view(s: Seq<KeyBinding>) -> Seq<BindingView> {
    s.map_values(|b: KeyBinding| b@)
}

impl KeyBinding {
    /// A binding from its parts.
    pub fn new(action: ShortcutAction, name: &str, shortcut: &str, description: &str, category: ShortcutCategory) -> (r: Self)
        ensures
            r@ == bv(action, name@, shortcut@, description@, category),
    {
        KeyBinding { action, name: string_of(name), shortcut: string_of(shortcut), description: string_of(description), category }
    }

    /// All default key bindings, in the order of [`default_bindings`].
    pub fn all_defaults() -> (r: Vec<Self>)
        ensures
            bindings_view(r@) == default_bindings(),
    {
        let mut v: Vec<KeyBinding> = Vec::new();
        v.push(Self::new(ShortcutAction::NewWorkspace, "New Workspace", "⌘N", "Create a new workspace", ShortcutCategory::General));
        v.push(Self::new(ShortcutAction::NewBranch, "New Branch", "⌘⇧N", "Create a new branch with worktree", ShortcutCategory::General));
        v.push(Self::new(ShortcutAction::CloseTab, "Close Tab", "⌘W", "Close the current tab", ShortcutCategory::General));
        v.push(Self::new(ShortcutAction::ToggleSidebar, "Toggle Sidebar", "⌘B", "Show or hide the sidebar", ShortcutCategory::General));
        v.push(Self::new(ShortcutAction::OpenNotifications, "Open Notifications", "⌘I", "Open the notifications panel", ShortcutCategory::General));
        v.push(Self::new(ShortcutAction::ShowHelp, "Show Help", "⌘?", "Show keyboard shortcuts help", ShortcutCategory::General));
        v.push(Self::new(ShortcutAction::SwitchTab1, "Switch to Tab 1", "⌘1", "Switch to the first tab", ShortcutCategory::Navigation));
        v.push(Self::new(ShortcutAction::SwitchTab2, "Switch to Tab 2", "⌘2", "Switch to the second tab", ShortcutCategory::Navigation));
        v.push(Self::new(ShortcutAction::SwitchTab3, "Switch to Tab 3", "⌘3", "Switch to the third tab", ShortcutCategory::Navigation));
        v.push(Self::new(ShortcutAction::SwitchTab4, "Switch to Tab 4", "⌘4", "Switch to the fourth tab", ShortcutCategory::Navigation));
        v.push(Self::new(ShortcutAction::SwitchTab5, "Switch to Tab 5", "⌘5", "Switch to the fifth tab", ShortcutCategory::Navigation));
        v.push(Self::new(ShortcutAction::SwitchTab6, "Switch to Tab 6", "⌘6", "Switch to the sixth tab", ShortcutCategory::Navigation));
        v.push(Self::new(ShortcutAction::SwitchTab7, "Switch to Tab 7", "⌘7", "Switch to the seventh tab", ShortcutCategory::Navigation));
        v.push(Self::new(ShortcutAction::SwitchTab8, "Switch to Tab 8", "⌘8", "Switch to the eighth tab", ShortcutCategory::Navigation));
        v.push(Self::new(ShortcutAction::JumpToUnread, "Jump to Unread", "⌘⇧U", "Jump to the most recent unread notification", ShortcutCategory::Navigation));
        v.push(Self::new(ShortcutAction::VerticalSplit, "Vertical Split", "⌘D", "Split pane vertically", ShortcutCategory::Workspace));
        v.push(Self::new(ShortcutAction::HorizontalSplit, "Horizontal Split", "⌘⇧D", "Split pane horizontally", ShortcutCategory::Workspace));
        v.push(Self::new(ShortcutAction::ToggleMute, "Toggle Mute", "⌘M", "Mute or unmute notifications for current worktree", ShortcutCategory::Workspace));
        v.push(Self::new(ShortcutAction::Refresh, "Refresh", "⌘R", "Refresh the current view", ShortcutCategory::View));
        v.push(Self::new(ShortcutAction::ZoomIn, "Zoom In", "⌘+", "Increase zoom level", ShortcutCategory::View));
        v.push(Self::new(ShortcutAction::ZoomOut, "Zoom Out", "⌘-", "Decrease zoom level", ShortcutCategory::View));
        v.push(Self::new(ShortcutAction::ResetZoom, "Reset Zoom", "⌘0", "Reset zoom to default", ShortcutCategory::View));
        assert(bindings_view(v@) =~= default_bindings());
        v
    }
}


/// Index of the first binding for `a` at or after `k`.
pub open spec fn binding_index_from(bs: Seq<BindingView>, a: ShortcutAction, k: int) -> Option<int>
    decreases bs.len() - k,
{
    if k < 0 || k >= bs.len() { None } else if bs[k].action == a { Some(k) } else { binding_index_from(bs, a, k + 1) }
}

/// Index of the first entry for shortcut `s` at or after `k`.
pub open spec fn shortcut_index_from(ss: Seq<(Seq<char>, ShortcutAction)>, s: Seq<char>, k: int) -> Option<int>
    decreases ss.len() - k,
{
    if k < 0 || k >= ss.len() { None } else if ss[k].0 == s { Some(k) } else { shortcut_index_from(ss, s, k + 1) }
}

/// Binding registered for `a`.
pub open spec fn binding_for(bs: Seq<BindingView>, a: ShortcutAction) -> Option<BindingView> {
    match binding_index_from(bs, a, 0) { Some(i) => Some(bs[i]), None => None }
}

/// Action registered for shortcut `s`.
pub open spec fn action_for(ss: Seq<(Seq<char>, ShortcutAction)>, s: Seq<char>) -> Option<ShortcutAction> {
    match shortcut_index_from(ss, s, 0) { Some(i) => Some(ss[i].1), None => None }
}

/// Bindings with `b` stored for its action (replacing a previous one in place).
pub open spec fn put_binding(bs: Seq<BindingView>, b: BindingView) -> Seq<BindingView> {
    match binding_index_from(bs, b.action, 0) { Some(i) => bs.update(i, b), None => bs.push(b) }
}

/// Shortcut table with `s` mapped to `a` (replacing a previous entry in place).
pub open spec fn put_shortcut(ss: Seq<(Seq<char>, ShortcutAction)>, s: Seq<char>, a: ShortcutAction) -> Seq<(Seq<char>, ShortcutAction)> {
    match shortcut_index_from(ss, s, 0) { Some(i) => ss.update(i, (s, a)), None => ss.push((s, a)) }
}

/// Shortcut table without the entry for `s`.
pub open spec fn drop_shortcut(ss: Seq<(Seq<char>, ShortcutAction)>, s: Seq<char>) -> Seq<(Seq<char>, ShortcutAction)> {
    match shortcut_index_from(ss, s, 0) { Some(i) => ss.remove(i), None => ss }
}

/// Bindings without the one for `a`.
pub open spec fn drop_binding(bs: Seq<BindingView>, a: ShortcutAction) -> Seq<BindingView> {
    match binding_index_from(bs, a, 0) { Some(i) => bs.remove(i), None => bs }
}

/// No action has two bindings and no shortcut two entries.
pub open spec fn registry_wf(bs: Seq<BindingView>, ss: Seq<(Seq<char>, ShortcutAction)>) -> bool {
    &&& forall|i: int, j: int| 0 <= i < j < bs.len() ==> #[trigger] bs[i].action != #[trigger] bs[j].action
    &&& forall|i: int, j: int| 0 <= i < j < ss.len() ==> #[trigger] ss[i].0 != #[trigger] ss[j].0
}

proof fn lemma_binding_index(bs: Seq<BindingView>, a: ShortcutAction, k: int)
    requires
        0 <= k,
    ensures
        match binding_index_from(bs, a, k) {
            Some(i) => k <= i < bs.len() && bs[i].action == a && forall|j: int| k <= j < i ==> #[trigger] bs[j].action != a,
            None => forall|j: int| k <= j < bs.len() ==> #[trigger] bs[j].action != a,
        },
    decreases bs.len() - k,
{
    if k < bs.len() && bs[k].action != a {
        lemma_binding_index(bs, a, k + 1);
    }
}

proof fn lemma_shortcut_index(ss: Seq<(Seq<char>, ShortcutAction)>, s: Seq<char>, k: int)
    requires
        0 <= k,
    ensures
        match shortcut_index_from(ss, s, k) {
            Some(i) => k <= i < ss.len() && ss[i].0 == s && forall|j: int| k <= j < i ==> #[trigger] ss[j].0 != s,
            None => forall|j: int| k <= j < ss.len() ==> #[trigger] ss[j].0 != s,
        },
    decreases ss.len() - k,
{
    if k < ss.len() && ss[k].0 != s {
        lemma_shortcut_index(ss, s, k + 1);
    }
}

/// Registry of key bindings: each action has at most one binding, each shortcut at
/// most one action.
#[derive(Clone, Debug)]
pub struct ShortcutRegistry {
    bindings: Vec<KeyBinding>,
    shortcuts: Vec<(String, ShortcutAction)>,
}

/// Registry contents as plain values: bindings, and shortcut-to-action entries.
pub struct RegistryView {
    pub bindings: Seq<BindingView>,
    pub shortcuts: Seq<(Seq<char>, ShortcutAction)>,
}

impl View for ShortcutRegistry {
    type V = RegistryView;

    closed spec fn view(&self) -> RegistryView {
        RegistryView {
            bindings: bindings_view(self.bindings@),
            shortcuts: self.shortcuts@.map_values(|e: (String, ShortcutAction)| (e.0@, e.1)),
        }
    }
}

/// Shortcut errors.
#[derive(Debug)]
pub enum ShortcutError {
    /// The shortcut is already bound to another action.
    Conflict { shortcut: String, existing_action: ShortcutAction },
}

/// The bindings and shortcut entries after registering `bs` in order into an empty
/// registry.
pub open spec fn registered(bs: Seq<BindingView>) -> (Seq<BindingView>, Seq<(Seq<char>, ShortcutAction)>)
    decreases bs.len(),
{
    if bs.len() == 0 {
        (Seq::empty(), Seq::empty())
    } else {
        let prev = registered(bs.drop_last());
        (put_binding(prev.0, bs.last()), put_shortcut(prev.1, bs.last().shortcut, bs.last().action))
    }
}

impl ShortcutRegistry {
    /// The registry invariant.
    pub open spec fn wf(&self) -> bool {
        registry_wf(self@.bindings, self@.shortcuts)
    }

    /// An empty registry.
    pub fn empty() -> (r: Self)
        ensures
            r@.bindings.len() == 0,
            r@.shortcuts.len() == 0,
            r.wf(),
    {
        let r = ShortcutRegistry { bindings: Vec::new(), shortcuts: Vec::new() };
        assert(r@.bindings =~= Seq::<BindingView>::empty());
        assert(r@.shortcuts =~= Seq::<(Seq<char>, ShortcutAction)>::empty());
        r
    }

    fn find_binding(&self, a: ShortcutAction) -> (r: Option<usize>)
        ensures
            match r { Some(i) => binding_index_from(self@.bindings, a, 0) == Some(i as int) && i < self.bindings.len(), None => binding_index_from(self@.bindings, a, 0) is None },
    {
        proof { lemma_binding_index(self@.bindings, a, 0); }
        let mut k: usize = 0;
        while k < self.bindings.len()
            invariant
                k <= self.bindings.len(),
                binding_index_from(self@.bindings, a, 0) == binding_index_from(self@.bindings, a, k as int),
            decreases self.bindings.len() - k,
        {
            if self.bindings[k].action == a {
                return Some(k);
            }
            k = k + 1;
        }
        None
    }

    fn find_shortcut(&self, s: &str) -> (r: Option<usize>)
        ensures
            match r { Some(i) => shortcut_index_from(self@.shortcuts, s@, 0) == Some(i as int) && i < self.shortcuts.len(), None => shortcut_index_from(self@.shortcuts, s@, 0) is None },
    {
        proof { lemma_shortcut_index(self@.shortcuts, s@, 0); }
        let mut k: usize = 0;
        while k < self.shortcuts.len()
            invariant
                k <= self.shortcuts.len(),
                shortcut_index_from(self@.shortcuts, s@, 0) == shortcut_index_from(self@.shortcuts, s@, k as int),
            decreases self.shortcuts.len() - k,
        {
            if str_equal(self.shortcuts[k].0.as_str(), s) {
                return Some(k);
            }
            k = k + 1;
        }
        None
    }

    fn put_shortcut_entry(&mut self, shortcut: String, action: ShortcutAction)
        requires
            old(self).wf(),
        ensures
            final(self)@.bindings == old(self)@.bindings,
            final(self)@.shortcuts == put_shortcut(old(self)@.shortcuts, shortcut@, action),
            final(self).wf(),
    {
        proof { lemma_shortcut_index(self@.shortcuts, shortcut@, 0); }
        match self.find_shortcut(shortcut.as_str()) {
            Some(i) => {
                self.shortcuts.set(i, (shortcut, action));
            },
            None => {
                self.shortcuts.push((shortcut, action));
            },
        }
        proof {
            let old_ss = old(self)@.shortcuts;
            assert(self@.shortcuts =~= put_shortcut(old_ss, shortcut@, action));
        }
    }

    /// Registers a binding: it replaces any binding of its action, and its shortcut maps
    /// to its action.
    pub fn register(&mut self, binding: KeyBinding)
        requires
            old(self).wf(),
        ensures
            final(self)@.bindings == put_binding(old(self)@.bindings, binding@),
            final(self)@.shortcuts == put_shortcut(old(self)@.shortcuts, binding@.shortcut, binding@.action),
            final(self).wf(),
    {
        let shortcut = binding.shortcut.clone();
        let action = binding.action;
        let ghost bview = binding@;
        proof { lemma_binding_index(self@.bindings, action, 0); }
        match self.find_binding(action) {
            Some(i) => {
                self.bindings.set(i, binding);
            },
            None => {
                self.bindings.push(binding);
            },
        }
        proof {
            assert(self@.bindings =~= put_binding(old(self)@.bindings, bview));
        }
        self.put_shortcut_entry(shortcut, action);
    }

    /// A registry holding the default bindings, registered in order.
    pub fn new() -> (r: Self)
        ensures
            r.wf(),
            r@.bindings == registered(default_bindings()).0,
            r@.shortcuts == registered(default_bindings()).1,
    {
        let mut registry = Self::empty();
        let defaults = KeyBinding::all_defaults();
        let ghost dv = bindings_view(defaults@);
        let mut i: usize = 0;
        while i < defaults.len()
            invariant
                i <= defaults.len(),
                dv == bindings_view(defaults@),
                registry.wf(),
                registry@.bindings == registered(dv.take(i as int)).0,
                registry@.shortcuts == registered(dv.take(i as int)).1,
            decreases defaults.len() - i,
        {
            let d = &defaults[i];
            let b = KeyBinding::new(d.action, d.name.as_str(), d.shortcut.as_str(), d.description.as_str(), d.category);
            proof {
                assert(dv.take(i + 1).drop_last() =~= dv.take(i as int));
                assert(b@ == dv[i as int]);
            }
            registry.register(b);
            i = i + 1;
        }
        proof { assert(dv.take(dv.len() as int) =~= dv); }
        registry
    }

    /// Removes the binding of `action` and the entry of its shortcut.
    pub fn unregister(&mut self, action: ShortcutAction)
        requires
            old(self).wf(),
        ensures
            final(self).wf(),
            final(self)@.bindings == drop_binding(old(self)@.bindings, action),
            final(self)@.shortcuts == (match binding_for(old(self)@.bindings, action) {
                Some(b) => drop_shortcut(old(self)@.shortcuts, b.shortcut),
                None => old(self)@.shortcuts,
            }),
    {
        proof { lemma_binding_index(self@.bindings, action, 0); }
        match self.find_binding(action) {
            Some(i) => {
                let binding = self.bindings.remove(i);
                proof {
                    assert(self@.bindings =~= drop_binding(old(self)@.bindings, action));
                    lemma_shortcut_index(self@.shortcuts, binding@.shortcut, 0);
                }
                match self.find_shortcut(binding.shortcut.as_str()) {
                    Some(j) => {
                        let _ = self.shortcuts.remove(j);
                        proof { assert(self@.shortcuts =~= drop_shortcut(old(self)@.shortcuts, binding@.shortcut)); }
                    },
                    None => {},
                }
            },
            None => {},
        }
    }

    /// Action bound to `shortcut`.
    pub fn lookup(&self, shortcut: &str) -> (r: Option<ShortcutAction>)
        ensures
            r == action_for(self@.shortcuts, shortcut@),
    {
        match self.find_shortcut(shortcut) {
            Some(i) => Some(self.shortcuts[i].1),
            None => None,
        }
    }

    /// Binding of `action`.
    pub fn get_binding(&self, action: ShortcutAction) -> (r: Option<&KeyBinding>)
        ensures
            match r { Some(b) => binding_for(self@.bindings, action) == Some(b@), None => binding_for(self@.bindings, action) is None },
    {
        match self.find_binding(action) {
            Some(i) => Some(&self.bindings[i]),
            None => None,
        }
    }

    /// Whether `shortcut` is bound.
    pub fn is_registered(&self, shortcut: &str) -> (r: bool)
        ensures
            r == (action_for(self@.shortcuts, shortcut@) is Some),
    {
        self.find_shortcut(shortcut).is_some()
    }

    /// The action that `shortcut` would conflict with, if it is bound.
    pub fn check_conflict(&self, shortcut: &str) -> (r: Option<ShortcutAction>)
        ensures
            r == action_for(self@.shortcuts, shortcut@),
    {
        self.lookup(shortcut)
    }

    /// All bindings.
    pub fn all_bindings(&self) -> (r: Vec<&KeyBinding>)
        ensures
            r@.len() == self@.bindings.len(),
            forall|k: int| 0 <= k < r@.len() ==> (#[trigger] r@[k])@ == self@.bindings[k],
    {
        let mut out: Vec<&KeyBinding> = Vec::new();
        let mut i: usize = 0;
        while i < self.bindings.len()
            invariant
                i <= self.bindings.len(),
                out@.len() == i,
                forall|k: int| 0 <= k < i ==> (#[trigger] out@[k])@ == self@.bindings[k],
            decreases self.bindings.len() - i,
        {
            out.push(&self.bindings[i]);
            proof { assert(self@.bindings[i as int] == self.bindings@[i as int]@); }
            i = i + 1;
        }
        out
    }

    /// Rebinds `action` to `new_shortcut`. Fails with `Conflict` when the shortcut is bound
    /// to another action; otherwise, if `action` has a binding, its old shortcut entry is
    /// removed and the new one maps to `action`.
    pub fn update_shortcut(&mut self, action: ShortcutAction, new_shortcut: &str) -> (r: Result<(), ShortcutError>)
        requires
            old(self).wf(),
        ensures
            final(self).wf(),
            match action_for(old(self)@.shortcuts, new_shortcut@) {
                Some(c) if c != action => r matches Err(ShortcutError::Conflict { shortcut, existing_action })
                    && shortcut@ == new_shortcut@ && existing_action == c && final(self)@ == old(self)@,
                _ => r is Ok && match binding_for(old(self)@.bindings, action) {
                    Some(b) => final(self)@.bindings == put_binding(old(self)@.bindings, BindingView { shortcut: new_shortcut@, ..b })
                        && final(self)@.shortcuts == put_shortcut(drop_shortcut(old(self)@.shortcuts, b.shortcut), new_shortcut@, action),
                    None => final(self)@ == old(self)@,
                },
            },
    {
        if let Some(conflict) = self.check_conflict(new_shortcut) {
            if conflict != action {
                return Err(ShortcutError::Conflict { shortcut: string_of(new_shortcut), existing_action: conflict });
            }
        }
        proof { lemma_binding_index(self@.bindings, action, 0); }
        match self.find_binding(action) {
            Some(i) => {
                let old_shortcut = self.bindings[i].shortcut.clone();
                proof { lemma_shortcut_index(self@.shortcuts, old_shortcut@, 0); }
                match self.find_shortcut(old_shortcut.as_str()) {
                    Some(j) => {
                        let _ = self.shortcuts.remove(j);
                    },
                    None => {},
                }
                proof {
                    assert(self@.shortcuts =~= drop_shortcut(old(self)@.shortcuts, old_shortcut@));
                }
                let b = KeyBinding {
                    action: self.bindings[i].action,
                    name: self.bindings[i].name.clone(),
                    shortcut: string_of(new_shortcut),
                    description: self.bindings[i].description.clone(),
                    category: self.bindings[i].category,
                };
                self.bindings.set(i, b);
                proof {
                    let ss = self@.shortcuts;
                    assert forall|x: int, y: int| 0 <= x < y < ss.len() implies #[trigger] ss[x].0 != #[trigger] ss[y].0 by {
                        let o = old(self)@.shortcuts;
                        match shortcut_index_from(o, old_shortcut@, 0) {
                            Some(j) => {
                                let xo = if x < j { x } else { x + 1 };
                                let yo = if y < j { y } else { y + 1 };
                                assert(ss[x] == o[xo]);
                                assert(ss[y] == o[yo]);
                            },
                            None => {},
                        }
                    }
                    let bs = self@.bindings;
                    assert forall|x: int, y: int| 0 <= x < y < bs.len() implies #[trigger] bs[x].action != #[trigger] bs[y].action by {
                        let o = old(self)@.bindings;
                        assert(bs[x].action == o[x].action);
                        assert(bs[y].action == o[y].action);
                    }
                }
                self.put_shortcut_entry(string_of(new_shortcut), action);
            },
            None => {},
        }
        Ok(())
    }
}


/// After a binding is registered, its action has that binding and its shortcut maps to
/// its action.
pub proof fn law_register_then_lookup(bs: Seq<BindingView>, ss: Seq<(Seq<char>, ShortcutAction)>, b: BindingView)
    ensures
        binding_for(put_binding(bs, b), b.action) == Some(b),
        action_for(put_shortcut(ss, b.shortcut, b.action), b.shortcut) == Some(b.action),
{
    lemma_binding_index(bs, b.action, 0);
    let nb = put_binding(bs, b);
    lemma_binding_index(nb, b.action, 0);
    match binding_index_from(bs, b.action, 0) {
        Some(i) => {
            assert(nb[i].action == b.action);
            match binding_index_from(nb, b.action, 0) {
                Some(k) => { if k < i { assert(nb[k] == bs[k]); } else if k > i { assert(nb[i].action == b.action); } },
                None => { assert(nb[i].action == b.action); },
            }
        },
        None => {
            let n = bs.len() as int;
            assert(nb[n] == b);
            match binding_index_from(nb, b.action, 0) {
                Some(k) => { if k < n { assert(nb[k] == bs[k]); } },
                None => {},
            }
        },
    }
    lemma_put_shortcut_lookup(ss, b.shortcut, b.action);
}

proof fn lemma_put_shortcut_lookup(ss: Seq<(Seq<char>, ShortcutAction)>, s: Seq<char>, a: ShortcutAction)
    ensures
        action_for(put_shortcut(ss, s, a), s) == Some(a),
{
    lemma_shortcut_index(ss, s, 0);
    let ns = put_shortcut(ss, s, a);
    lemma_shortcut_index(ns, s, 0);
    match shortcut_index_from(ss, s, 0) {
        Some(i) => {
            assert(ns[i] == (s, a));
            match shortcut_index_from(ns, s, 0) {
                Some(k) => {
                    if k < i { assert(ns[k] == ss[k]); } else if k > i { assert(ns[i].0 == s); }
                    assert(k == i);
                },
                None => { assert(ns[i].0 == s); },
            }
        },
        None => {
            let n = ss.len() as int;
            assert(ns[n] == (s, a));
            match shortcut_index_from(ns, s, 0) {
                Some(k) => { if k < n { assert(ns[k] == ss[k]); } assert(k == n); },
                None => { assert(ns[n].0 == s); },
            }
        },
    }
}

proof fn lemma_drop_shortcut_gone(ss: Seq<(Seq<char>, ShortcutAction)>, s: Seq<char>)
    requires
        forall|i: int, j: int| 0 <= i < j < ss.len() ==> #[trigger] ss[i].0 != #[trigger] ss[j].0,
    ensures
        action_for(drop_shortcut(ss, s), s) is None,
{
    lemma_shortcut_index(ss, s, 0);
    let ns = drop_shortcut(ss, s);
    lemma_shortcut_index(ns, s, 0);
    match shortcut_index_from(ss, s, 0) {
        Some(i) => {
            match shortcut_index_from(ns, s, 0) {
                Some(k) => {
                    if k < i { assert(ns[k] == ss[k]); } else { assert(ns[k] == ss[k + 1]); }
                },
                None => {},
            }
        },
        None => {},
    }
}

proof fn lemma_drop_binding_other(bs: Seq<BindingView>, a: ShortcutAction, x: ShortcutAction)
    requires
        a != x,
    ensures
        binding_for(drop_binding(bs, a), x) == binding_for(bs, x),
{
    lemma_binding_index(bs, a, 0);
    lemma_binding_index(bs, x, 0);
    let nb = drop_binding(bs, a);
    lemma_binding_index(nb, x, 0);
    match binding_index_from(bs, a, 0) {
        Some(i) => {
            assert(forall|k: int| 0 <= k < i ==> nb[k] == #[trigger] bs[k]);
            assert(forall|k: int| i <= k < nb.len() ==> nb[k] == bs[k + 1]);
            match (binding_index_from(bs, x, 0), binding_index_from(nb, x, 0)) {
                (Some(j), Some(k)) => {
                    if j < i {
                        assert(nb[j].action == x);
                        if k < j { assert(nb[k] == bs[k]); }
                    } else {
                        assert(j != i);
                        assert(nb[j - 1] == bs[j]);
                        if k < i { assert(nb[k] == bs[k]); } else if k < j - 1 { assert(nb[k] == bs[k + 1]); }
                    }
                },
                (Some(j), None) => {
                    if j < i { assert(nb[j] == bs[j]); } else { assert(j != i); assert(nb[j - 1] == bs[j]); }
                },
                (None, Some(k)) => {
                    if k < i { assert(nb[k] == bs[k]); } else { assert(nb[k] == bs[k + 1]); }
                },
                (None, None) => {},
            }
        },
        None => {},
    }
}

proof fn lemma_drop_shortcut_other(ss: Seq<(Seq<char>, ShortcutAction)>, s: Seq<char>, t: Seq<char>)
    requires
        s != t,
    ensures
        action_for(drop_shortcut(ss, s), t) == action_for(ss, t),
{
    lemma_shortcut_index(ss, s, 0);
    lemma_shortcut_index(ss, t, 0);
    let ns = drop_shortcut(ss, s);
    lemma_shortcut_index(ns, t, 0);
    match shortcut_index_from(ss, s, 0) {
        Some(i) => {
            assert(forall|k: int| 0 <= k < i ==> ns[k] == #[trigger] ss[k]);
            assert(forall|k: int| i <= k < ns.len() ==> ns[k] == ss[k + 1]);
            match (shortcut_index_from(ss, t, 0), shortcut_index_from(ns, t, 0)) {
                (Some(j), Some(k)) => {
                    if j < i {
                        assert(ns[j].0 == t);
                        if k < j { assert(ns[k] == ss[k]); }
                    } else {
                        assert(j != i);
                        assert(ns[j - 1] == ss[j]);
                        if k < i { assert(ns[k] == ss[k]); } else if k < j - 1 { assert(ns[k] == ss[k + 1]); }
                    }
                },
                (Some(j), None) => {
                    if j < i { assert(ns[j] == ss[j]); } else { assert(j != i); assert(ns[j - 1] == ss[j]); }
                },
                (None, Some(k)) => {
                    if k < i { assert(ns[k] == ss[k]); } else { assert(ns[k] == ss[k + 1]); }
                },
                (None, None) => {},
            }
        },
        None => {},
    }
}

proof fn lemma_put_binding_other(bs: Seq<BindingView>, b: BindingView, x: ShortcutAction)
    requires
        b.action != x,
    ensures
        binding_for(put_binding(bs, b), x) == binding_for(bs, x),
{
    lemma_binding_index(bs, b.action, 0);
    lemma_binding_index(bs, x, 0);
    let nb = put_binding(bs, b);
    lemma_binding_index(nb, x, 0);
    match (binding_index_from(bs, x, 0), binding_index_from(nb, x, 0)) {
        (Some(j), Some(k)) => {
            assert(nb[j] == bs[j]);
            if k < j { assert(nb[k].action != x || nb[k] == bs[k]); }
        },
        (Some(j), None) => { assert(nb[j] == bs[j]); },
        (None, Some(k)) => { if k < bs.len() { assert(nb[k].action != x || nb[k] == bs[k]); } },
        (None, None) => {},
    }
}

proof fn lemma_put_shortcut_other(ss: Seq<(Seq<char>, ShortcutAction)>, s: Seq<char>, a: ShortcutAction, t: Seq<char>)
    requires
        s != t,
    ensures
        action_for(put_shortcut(ss, s, a), t) == action_for(ss, t),
{
    lemma_shortcut_index(ss, s, 0);
    lemma_shortcut_index(ss, t, 0);
    let ns = put_shortcut(ss, s, a);
    lemma_shortcut_index(ns, t, 0);
    match (shortcut_index_from(ss, t, 0), shortcut_index_from(ns, t, 0)) {
        (Some(j), Some(k)) => {
            assert(ns[j] == ss[j]);
            if k < j { assert(ns[k].0 != t || ns[k] == ss[k]); }
        },
        (Some(j), None) => { assert(ns[j] == ss[j]); },
        (None, Some(k)) => { if k < ss.len() { assert(ns[k].0 != t || ns[k] == ss[k]); } },
        (None, None) => {},
    }
}

/// After `action` is unregistered it has no binding and its former shortcut maps to
/// nothing, while every other action keeps its binding and every other shortcut its
/// action.
pub proof fn law_unregister_removes(bs: Seq<BindingView>, ss: Seq<(Seq<char>, ShortcutAction)>, action: ShortcutAction)
    requires
        registry_wf(bs, ss),
    ensures
        binding_for(drop_binding(bs, action), action) is None,
        binding_for(bs, action) matches Some(b) ==> action_for(drop_shortcut(ss, b.shortcut), b.shortcut) is None,
        forall|x: ShortcutAction| x != action ==> #[trigger] binding_for(drop_binding(bs, action), x) == binding_for(bs, x),
        binding_for(bs, action) matches Some(b) ==> forall|t: Seq<char>| t != b.shortcut
            ==> #[trigger] action_for(drop_shortcut(ss, b.shortcut), t) == action_for(ss, t),
{
    assert forall|x: ShortcutAction| x != action implies #[trigger] binding_for(drop_binding(bs, action), x) == binding_for(bs, x) by {
        lemma_drop_binding_other(bs, action, x);
    }
    if let Some(b) = binding_for(bs, action) {
        assert forall|t: Seq<char>| t != b.shortcut implies #[trigger] action_for(drop_shortcut(ss, b.shortcut), t) == action_for(ss, t) by {
            lemma_drop_shortcut_other(ss, b.shortcut, t);
        }
    }
    lemma_binding_index(bs, action, 0);
    let nb = drop_binding(bs, action);
    lemma_binding_index(nb, action, 0);
    match binding_index_from(bs, action, 0) {
        Some(i) => {
            match binding_index_from(nb, action, 0) {
                Some(k) => {
                    if k < i { assert(nb[k] == bs[k]); } else { assert(nb[k] == bs[k + 1]); }
                },
                None => {},
            }
            lemma_drop_shortcut_gone(ss, bs[i].shortcut);
        },
        None => {},
    }
}

/// A rebinding that is not refused as a conflict: the action's binding now carries the
/// new shortcut, the new shortcut maps to the action, the old one (if different) maps to
/// nothing, and every other action and every other shortcut is as before.
pub proof fn law_update_shortcut(bs: Seq<BindingView>, ss: Seq<(Seq<char>, ShortcutAction)>, b: BindingView, new_shortcut: Seq<char>, action: ShortcutAction)
    requires
        registry_wf(bs, ss),
        binding_for(bs, action) == Some(b),
        action_for(ss, new_shortcut) is None || action_for(ss, new_shortcut) == Some(action),
    ensures
        binding_for(put_binding(bs, BindingView { shortcut: new_shortcut, ..b }), action) == Some(BindingView { shortcut: new_shortcut, ..b }),
        forall|x: ShortcutAction| x != action ==> #[trigger] binding_for(put_binding(bs, BindingView { shortcut: new_shortcut, ..b }), x) == binding_for(bs, x),
        action_for(put_shortcut(drop_shortcut(ss, b.shortcut), new_shortcut, action), new_shortcut) == Some(action),
        b.shortcut != new_shortcut ==> action_for(put_shortcut(drop_shortcut(ss, b.shortcut), new_shortcut, action), b.shortcut) is None,
        forall|t: Seq<char>| t != b.shortcut && t != new_shortcut ==> #[trigger] action_for(put_shortcut(drop_shortcut(ss, b.shortcut), new_shortcut, action), t) == action_for(ss, t),
{
    let nb = BindingView { shortcut: new_shortcut, ..b };
    lemma_binding_index(bs, action, 0);
    law_register_then_lookup(bs, ss, nb);
    assert forall|x: ShortcutAction| x != action implies #[trigger] binding_for(put_binding(bs, nb), x) == binding_for(bs, x) by {
        lemma_put_binding_other(bs, nb, x);
    }
    assert forall|t: Seq<char>| t != b.shortcut && t != new_shortcut implies #[trigger] action_for(put_shortcut(drop_shortcut(ss, b.shortcut), new_shortcut, action), t) == action_for(ss, t) by {
        lemma_put_shortcut_other(drop_shortcut(ss, b.shortcut), new_shortcut, action, t);
        lemma_drop_shortcut_other(ss, b.shortcut, t);
    }
    let old_shortcut = b.shortcut;
    let d = drop_shortcut(ss, old_shortcut);
    lemma_put_shortcut_lookup(d, new_shortcut, action);
    lemma_drop_shortcut_gone(ss, old_shortcut);
    if old_shortcut != new_shortcut {
        let p = put_shortcut(d, new_shortcut, action);
        lemma_shortcut_index(d, old_shortcut, 0);
        lemma_shortcut_index(d, new_shortcut, 0);
        lemma_shortcut_index(p, old_shortcut, 0);
        match shortcut_index_from(p, old_shortcut, 0) {
            Some(k) => {
                match shortcut_index_from(d, new_shortcut, 0) {
                    Some(i) => { if k != i { assert(p[k] == d[k]); } },
                    None => { if k < d.len() { assert(p[k] == d[k]); } },
                }
            },
            None => {},
        }
    }
}

} // verus!
