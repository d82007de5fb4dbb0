//! Keyboard-shortcut help panel: open/closed state, search and category filters, and a
//! text rendering.
use vstd::prelude::*;
use crate::keyboard_shortcuts::{KeyBinding, ShortcutCategory, BindingView, bindings_view, default_bindings};
use crate::text::{chars_of, contains_sub, contains_chars, lowercase, to_lowercase, string_of, string_from_chars,
    extend_str, extend_chars, extend_padded, pad_right, spaces};

verus! {

/// Help panel state.
#[derive(Clone, Debug)]
pub enum HelpPanelState {
    Closed,
    Open { search_query: String, selected_category: Option<ShortcutCategory> },
}

/// Help panel state as plain values.
pub enum HelpStateView {
    Closed,
    Open { query: Seq<char>, category: Option<ShortcutCategory> },
}

impl View for HelpPanelState {
    type V = HelpStateView;

    open spec fn view(&self) -> HelpStateView {
        match self {
            HelpPanelState::Closed => HelpStateView::Closed,
            HelpPanelState::Open { search_query, selected_category } => HelpStateView::Open { query: search_query@, category: *selected_category },
        }
    }
}

impl Default for HelpPanelState {
    fn default() -> (r: Self)
        ensures
            r@ == HelpStateView::Closed,
    {
        HelpPanelState::Closed
    }
}

/// The help panel.
#[derive(Clone, Debug)]
pub struct HelpPanel {
    pub state: HelpPanelState,
    pub all_bindings: Vec<KeyBinding>,
}

/// A binding passes the filters: its category matches the selected one (if any), and the
/// lowercase search text (if not empty) occurs in its lowercase name, description or
/// shortcut.
pub open spec fn binding_passes(b: BindingView, q: Seq<char>, cat: Option<ShortcutCategory>) -> bool {
    &&& (cat matches Some(c) ==> b.category == c)
    &&& (q.len() == 0 || contains_sub(lowercase(b.name), q) || contains_sub(lowercase(b.description), q)
        || contains_sub(lowercase(b.shortcut), q))
}

/// The bindings that pass the filters, in order.
pub open spec fn filter_bindings(bs: Seq<BindingView>, q: Seq<char>, cat: Option<ShortcutCategory>) -> Seq<BindingView>
    decreases bs.len(),
{
    if bs.len() == 0 {
        Seq::empty()
    } else {
        let rest = filter_bindings(bs.drop_last(), q, cat);
        if binding_passes(bs.last(), q, cat) { rest.push(bs.last()) } else { rest }
    }
}

/// What the panel lists: nothing when closed, else the filtered bindings.
pub open spec fn filtered_spec(state: HelpStateView, bs: Seq<BindingView>) -> Seq<BindingView> {
    match state {
        HelpStateView::Closed => Seq::empty(),
        HelpStateView::Open { query, category } => filter_bindings(bs, lowercase(query), category),
    }
}

/// The bindings of one category, in order.
pub open spec fn of_category(bs: Seq<BindingView>, c: ShortcutCategory) -> Seq<BindingView>
    decreases bs.len(),
{
    if bs.len() == 0 {
        Seq::empty()
    } else {
        let rest = of_category(bs.drop_last(), c);
        if bs.last().category == c { rest.push(bs.last()) } else { rest }
    }
}

/// Categories in display order.
pub open spec fn category_order() -> Seq<ShortcutCategory> {
    seq![ShortcutCategory::General, ShortcutCategory::Navigation, ShortcutCategory::Workspace, ShortcutCategory::View]
}

/// Non-empty groups of the listed bindings by category, in display order.
pub open spec fn groups_from(listed: Seq<BindingView>, cats: Seq<ShortcutCategory>) -> Seq<(ShortcutCategory, Seq<BindingView>)>
    decreases cats.len(),
{
    if cats.len() == 0 {
        Seq::empty()
    } else {
        let rest = groups_from(listed, cats.drop_last());
        let g = of_category(listed, cats.last());
        if g.len() > 0 { rest.push((cats.last(), g)) } else { rest }
    }
}

/// Display name of a category.
pub open spec fn category_name_spec(c: ShortcutCategory) -> Seq<char> {
    match c {
        ShortcutCategory::General => "General"@,
        ShortcutCategory::Navigation => "Navigation"@,
        ShortcutCategory::Workspace => "Workspace"@,
        ShortcutCategory::View => "View"@,
    }
}

/// Display name of a category.
pub fn category_name(category: ShortcutCategory) -> (r: &'static str)
    ensures
        r@ == category_name_spec(category),
{
    match category {
        ShortcutCategory::General => "General",
        ShortcutCategory::Navigation => "Navigation",
        ShortcutCategory::Workspace => "Workspace",
        ShortcutCategory::View => "View",
    }
}

/// Whether the binding passes the filters, given the lowercase search text.
fn passes(b: &KeyBinding, q: &Vec<char>, cat: Option<ShortcutCategory>) -> (r: bool)
    ensures
        r == binding_passes(b@, q@, cat),
{
    if let Some(c) = cat {
        if b.category != c {
            return false;
        }
    }
    if q.len() == 0 {
        return true;
    }
    let n = to_lowercase(b.name.as_str());
    if contains_chars(&chars_of(n.as_str()), q) {
        return true;
    }
    let d = to_lowercase(b.description.as_str());
    if contains_chars(&chars_of(d.as_str()), q) {
        return true;
    }
    let s = to_lowercase(b.shortcut.as_str());
    contains_chars(&chars_of(s.as_str()), q)
}

/// Number of default bindings a new panel lists.
pub const HELP_PANEL_BINDINGS: usize = 10;

/// The bindings a new panel lists: the first ten default bindings, in order (the
/// general commands and the first tab switches).
pub open spec fn panel_bindings() -> Seq<BindingView> {
    default_bindings().take(HELP_PANEL_BINDINGS as int)
}

impl HelpPanel {
    /// Closed panel holding the first ten default bindings.
    pub fn new() -> (r: Self)
        ensures
            r.state@ == HelpStateView::Closed,
            bindings_view(r.all_bindings@) == panel_bindings(),
            r.all_bindings@.len() == HELP_PANEL_BINDINGS,
    {
        let mut all = KeyBinding::all_defaults();
        proof { assert(bindings_view(all@).len() == 22); }
        all.truncate(HELP_PANEL_BINDINGS);
        proof { assert(bindings_view(all@) =~= panel_bindings()); }
        HelpPanel { state: HelpPanelState::Closed, all_bindings: all }
    }

    /// Opens the panel with an empty search and no category filter.
    pub fn open(&mut self)
        ensures
            final(self).state@ == (HelpStateView::Open { query: Seq::empty(), category: None }),
            final(self).all_bindings@ == old(self).all_bindings@,
    {
        self.state = HelpPanelState::Open { search_query: String::new(), selected_category: None };
    }

    /// Closes the panel.
    pub fn close(&mut self)
        ensures
            final(self).state@ == HelpStateView::Closed,
            final(self).all_bindings@ == old(self).all_bindings@,
    {
        self.state = HelpPanelState::Closed;
    }

    /// Opens a closed panel, closes an open one.
    pub fn toggle(&mut self)
        ensures
            final(self).state@ == toggle_spec(old(self).state@),
            final(self).all_bindings@ == old(self).all_bindings@,
    {
        match self.state {
            HelpPanelState::Closed => self.open(),
            HelpPanelState::Open { .. } => self.close(),
        }
    }

    /// Whether the panel is open.
    pub fn is_open(&self) -> (r: bool)
        ensures
            r == (self.state@ is Open),
    {
        match self.state {
            HelpPanelState::Open { .. } => true,
            HelpPanelState::Closed => false,
        }
    }

    /// Sets the search text of an open panel (a closed panel is unchanged).
    pub fn set_search(&mut self, query: &str)
        ensures
            final(self).state@ == (match old(self).state@ {
                HelpStateView::Open { query: _, category } => HelpStateView::Open { query: query@, category },
                HelpStateView::Closed => HelpStateView::Closed,
            }),
            final(self).all_bindings@ == old(self).all_bindings@,
    {
        match &self.state {
            HelpPanelState::Open { search_query: _, selected_category } => {
                let c = *selected_category;
                self.state = HelpPanelState::Open { search_query: string_of(query), selected_category: c };
            },
            HelpPanelState::Closed => {},
        }
    }

    /// Clears the search text of an open panel.
    pub fn clear_search(&mut self)
        ensures
            final(self).state@ == (match old(self).state@ {
                HelpStateView::Open { query: _, category } => HelpStateView::Open { query: Seq::empty(), category },
                HelpStateView::Closed => HelpStateView::Closed,
            }),
            final(self).all_bindings@ == old(self).all_bindings@,
    {
        proof { reveal_strlit(""); }
        assert(""@ =~= Seq::<char>::empty());
        self.set_search("");
    }

    /// Sets the category filter of an open panel.
    pub fn select_category(&mut self, category: Option<ShortcutCategory>)
        ensures
            final(self).state@ == (match old(self).state@ {
                HelpStateView::Open { query, category: _ } => HelpStateView::Open { query, category },
                HelpStateView::Closed => HelpStateView::Closed,
            }),
            final(self).all_bindings@ == old(self).all_bindings@,
    {
        match &self.state {
            HelpPanelState::Open { search_query, selected_category: _ } => {
                let q = search_query.clone();
                self.state = HelpPanelState::Open { search_query: q, selected_category: category };
            },
            HelpPanelState::Closed => {},
        }
    }

    /// Bindings that pass the search and category filters; none when closed.
    pub fn filtered_bindings(&self) -> (r: Vec<&KeyBinding>)
        ensures
            r@.len() == filtered_spec(self.state@, bindings_view(self.all_bindings@)).len(),
            forall|k: int| 0 <= k < r@.len() ==> (#[trigger] r@[k])@ == filtered_spec(self.state@, bindings_view(self.all_bindings@))[k],
            self.state@ matches HelpStateView::Open { query, category } && query.len() == 0 && category is None
                ==> r@.len() == self.all_bindings@.len() && forall|k: int| 0 <= k < r@.len() ==> (#[trigger] r@[k])@ == self.all_bindings@[k]@,
    {
        let mut out: Vec<&KeyBinding> = Vec::new();
        match &self.state {
            HelpPanelState::Closed => out,
            HelpPanelState::Open { search_query, selected_category } => {
                let ql = to_lowercase(search_query.as_str());
                let q = chars_of(ql.as_str());
                let cat = *selected_category;
                let ghost bs = bindings_view(self.all_bindings@);
                proof {
                    if search_query@.len() == 0 && cat is None {
                        lemma_filter_all(bs, q@);
                    }
                }
                let mut i: usize = 0;
                while i < self.all_bindings.len()
                    invariant
                        i <= self.all_bindings.len(),
                        bs == bindings_view(self.all_bindings@),
                        q@ == lowercase(search_query@),
                        out@.len() == filter_bindings(bs.take(i as int), q@, cat).len(),
                        forall|k: int| 0 <= k < out@.len() ==> (#[trigger] out@[k])@ == filter_bindings(bs.take(i as int), q@, cat)[k],
                    decreases self.all_bindings.len() - i,
                {
                    let b = &self.all_bindings[i];
                    proof {
                        assert(bs.take(i + 1).drop_last() =~= bs.take(i as int));
                        assert(bs.take(i + 1).last() == b@);
                    }
                    if passes(b, &q, cat) {
                        out.push(b);
                    }
                    i = i + 1;
                }
                proof { assert(bs.take(bs.len() as int) =~= bs); }
                out
            },
        }
    }

    /// Listed bindings grouped by category, in display order, without empty groups.
    pub fn bindings_by_category(&self) -> (r: Vec<(ShortcutCategory, Vec<&KeyBinding>)>)
        ensures
            r@.len() == groups_from(filtered_spec(self.state@, bindings_view(self.all_bindings@)), category_order()).len(),
            forall|k: int| 0 <= k < r@.len() ==> {
                let g = #[trigger] groups_from(filtered_spec(self.state@, bindings_view(self.all_bindings@)), category_order())[k];
                &&& r@[k].0 == g.0
                &&& r@[k].1@.len() == g.1.len()
                &&& forall|j: int| 0 <= j < g.1.len() ==> (#[trigger] r@[k].1@[j])@ == g.1[j]
            },
    {
        let listed = self.filtered_bindings();
        let ghost lv = filtered_spec(self.state@, bindings_view(self.all_bindings@));
        let cats: Vec<ShortcutCategory> = vec![ShortcutCategory::General, ShortcutCategory::Navigation, ShortcutCategory::Workspace, ShortcutCategory::View];
        assert(cats@ =~= category_order());
        let mut out: Vec<(ShortcutCategory, Vec<&KeyBinding>)> = Vec::new();
        let mut c: usize = 0;
        while c < cats.len()
            invariant
                c <= cats.len(),
                cats@ == category_order(),
                listed@.len() == lv.len(),
                forall|k: int| 0 <= k < listed@.len() ==> (#[trigger] listed@[k])@ == lv[k],
                out@.len() == groups_from(lv, cats@.take(c as int)).len(),
                forall|k: int| 0 <= k < out@.len() ==> {
                    let g = #[trigger] groups_from(lv, cats@.take(c as int))[k];
                    &&& out@[k].0 == g.0
                    &&& out@[k].1@.len() == g.1.len()
                    &&& forall|j: int| 0 <= j < g.1.len() ==> (#[trigger] out@[k].1@[j])@ == g.1[j]
                },
            decreases cats.len() - c,
        {
            let cat = cats[c];
            let mut group: Vec<&KeyBinding> = Vec::new();
            let mut i: usize = 0;
            while i < listed.len()
                invariant
                    i <= listed.len(),
                    listed@.len() == lv.len(),
                    forall|k: int| 0 <= k < listed@.len() ==> (#[trigger] listed@[k])@ == lv[k],
                    group@.len() == of_category(lv.take(i as int), cat).len(),
                    forall|k: int| 0 <= k < group@.len() ==> (#[trigger] group@[k])@ == of_category(lv.take(i as int), cat)[k],
                decreases listed.len() - i,
            {
                let b = listed[i];
                proof {
                    assert(lv.take(i + 1).drop_last() =~= lv.take(i as int));
                    assert(lv.take(i + 1).last() == b@);
                }
                if b.category == cat {
                    group.push(b);
                }
                i = i + 1;
            }
            proof {
                assert(lv.take(lv.len() as int) =~= lv);
                assert(cats@.take(c + 1).drop_last() =~= cats@.take(c as int));
                assert(cats@.take(c + 1).last() == cat);
            }
            if group.len() > 0 {
                out.push((cat, group));
            }
            c = c + 1;
        }
        proof { assert(cats@.take(cats@.len() as int) =~= cats@); }
        out
    }

    /// Closes an open panel and reports `true`; `false` (and no change) when closed.
    pub fn handle_escape(&mut self) -> (r: bool)
        ensures
            r == (old(self).state@ is Open),
            final(self).state@ == HelpStateView::Closed,
            final(self).all_bindings@ == old(self).all_bindings@,
    {
        if self.is_open() {
            self.close();
            true
        } else {
            false
        }
    }

    /// Search text of an open panel.
    pub fn search_query(&self) -> (r: Option<&str>)
        ensures
            match self.state@ {
                HelpStateView::Open { query, category: _ } => r matches Some(s) && s@ == query,
                HelpStateView::Closed => r is None,
            },
    {
        match &self.state {
            HelpPanelState::Open { search_query, .. } => Some(search_query.as_str()),
            HelpPanelState::Closed => None,
        }
    }

    /// Category filter of an open panel.
    pub fn selected_category(&self) -> (r: Option<ShortcutCategory>)
        ensures
            r == (match self.state@ {
                HelpStateView::Open { query: _, category } => category,
                HelpStateView::Closed => None,
            }),
    {
        match &self.state {
            HelpPanelState::Open { selected_category, .. } => *selected_category,
            HelpPanelState::Closed => None,
        }
    }
}

impl Default for HelpPanel {
    fn default() -> (r: Self)
        ensures
            r.state@ == HelpStateView::Closed,
            bindings_view(r.all_bindings@) == panel_bindings(),
    {
        HelpPanel::new()
    }
}

/// State after a toggle.
pub open spec fn toggle_spec(s: HelpStateView) -> HelpStateView {
    match s {
        HelpStateView::Closed => HelpStateView::Open { query: Seq::empty(), category: None },
        HelpStateView::Open { .. } => HelpStateView::Closed,
    }
}

/// Toggling twice returns a closed panel to closed, and an open panel to an open panel
/// with its search and category filter reset.
pub proof fn law_toggle_twice(s: HelpStateView)
    ensures
        s is Closed ==> toggle_spec(toggle_spec(s)) == HelpStateView::Closed,
        s is Open ==> toggle_spec(toggle_spec(s)) == (HelpStateView::Open { query: Seq::empty(), category: None }),
{
}

/// Top border of the rendered panel.
pub open spec fn top_text() -> Seq<char> { "╔══════════════════════════════════════════════════════════════╗\n"@ }

/// Title row of the rendered panel.
pub open spec fn title_text() -> Seq<char> { "║                 Keyboard Shortcuts Help (⌘?)                 ║\n"@ }

/// Divider row of the rendered panel.
pub open spec fn divider_text() -> Seq<char> { "╠══════════════════════════════════════════════════════════════╣\n"@ }

/// Rule under a category heading.
pub open spec fn rule_text() -> Seq<char> { "║  ─────────────────────────────────────────────────────────── ║\n"@ }

/// Empty row after a category.
pub open spec fn blank_text() -> Seq<char> { "║                                                              ║\n"@ }

/// Bottom border and the hint line under it.
pub open spec fn footer_text() -> Seq<char> { "╚══════════════════════════════════════════════════════════════╝\n"@ + "  Press ESC to close | Type to search\n"@ }

/// The search row for the text `q`.
pub open spec fn search_row(q: Seq<char>) -> Seq<char> {
    "║  Search: "@ + q + "                                                  ║\n"@
}

/// One binding row: shortcut padded to 20, name padded to 30, then the description.
pub open spec fn binding_row(b: BindingView) -> Seq<char> {
    "║    "@ + pad_right(b.shortcut, 20) + " "@ + pad_right(b.name, 30) + " "@ + b.description + "\n"@
}

/// The rows of a run of bindings.
pub open spec fn binding_rows(bs: Seq<BindingView>) -> Seq<char>
    decreases bs.len(),
{
    if bs.len() == 0 {
        Seq::empty()
    } else {
        binding_rows(bs.drop_last()) + binding_row(bs.last())
    }
}

/// A category heading, its rule, its binding rows and an empty row.
pub open spec fn group_text(g: (ShortcutCategory, Seq<BindingView>)) -> Seq<char> {
    "║  "@ + category_name_spec(g.0) + ":\n"@ + rule_text() + binding_rows(g.1) + blank_text()
}

/// The text of a run of groups.
pub open spec fn groups_text(gs: Seq<(ShortcutCategory, Seq<BindingView>)>) -> Seq<char>
    decreases gs.len(),
{
    if gs.len() == 0 {
        Seq::empty()
    } else {
        groups_text(gs.drop_last()) + group_text(gs.last())
    }
}

/// The rendering of a panel: empty when closed; else the header, the search row, the
/// listed bindings by category and the footer.
pub open spec fn render_spec(state: HelpStateView, bs: Seq<BindingView>) -> Seq<char> {
    match state {
        HelpStateView::Closed => Seq::empty(),
        HelpStateView::Open { query, category: _ } =>
            top_text() + title_text() + divider_text() + search_row(query) + divider_text()
                + groups_text(groups_from(filtered_spec(state, bs), category_order())) + footer_text(),
    }
}

/// The text of the compact hint.
pub open spec fn hint_text() -> Seq<char> { "Press ⌘? for keyboard shortcuts"@ }

/// Renders the help panel as text.
pub struct HelpPanelRenderer;

impl HelpPanelRenderer {
    /// The panel as text: nothing when closed.
    pub fn render(panel: &HelpPanel) -> (r: String)
        ensures
            r@ == render_spec(panel.state@, bindings_view(panel.all_bindings@)),
    {
        if !panel.is_open() {
            return String::new();
        }
        let mut out: Vec<char> = Vec::new();
        extend_str(&mut out, "╔══════════════════════════════════════════════════════════════╗\n");
        extend_str(&mut out, "║                 Keyboard Shortcuts Help (⌘?)                 ║\n");
        extend_str(&mut out, "╠══════════════════════════════════════════════════════════════╣\n");
        match panel.search_query() {
            Some(q) => {
                extend_str(&mut out, "║  Search: ");
                extend_str(&mut out, q);
                extend_str(&mut out, "                                                  ║\n");
                extend_str(&mut out, "╠══════════════════════════════════════════════════════════════╣\n");
            },
            None => {},
        }
        let groups = panel.bindings_by_category();
        let ghost gs = groups_from(filtered_spec(panel.state@, bindings_view(panel.all_bindings@)), category_order());
        let ghost head = out@;
        let mut k: usize = 0;
        while k < groups.len()
            invariant
                k <= groups.len(),
                groups@.len() == gs.len(),
                forall|m: int| 0 <= m < groups@.len() ==> {
                    let g = #[trigger] gs[m];
                    &&& groups@[m].0 == g.0
                    &&& groups@[m].1@.len() == g.1.len()
                    &&& forall|j: int| 0 <= j < g.1.len() ==> (#[trigger] groups@[m].1@[j])@ == g.1[j]
                },
                out@ == head + groups_text(gs.take(k as int)),
            decreases groups.len() - k,
        {
            let cat = groups[k].0;
            let ghost before = out@;
            extend_str(&mut out, "║  ");
            extend_str(&mut out, category_name(cat));
            extend_str(&mut out, ":\n");
            extend_str(&mut out, "║  ─────────────────────────────────────────────────────────── ║\n");
            let ghost rows_start = out@;
            let bs = &groups[k].1;
            let ghost gb = gs[k as int].1;
            let mut j: usize = 0;
            while j < bs.len()
                invariant
                    j <= bs.len(),
                    bs@.len() == gb.len(),
                    forall|i: int| 0 <= i < gb.len() ==> (#[trigger] bs@[i])@ == gb[i],
                    out@ == rows_start + binding_rows(gb.take(j as int)),
                decreases bs.len() - j,
            {
                let b = bs[j];
                extend_str(&mut out, "║    ");
                extend_padded(&mut out, b.shortcut.as_str(), 20);
                extend_str(&mut out, " ");
                extend_padded(&mut out, b.name.as_str(), 30);
                extend_str(&mut out, " ");
                extend_str(&mut out, b.description.as_str());
                extend_str(&mut out, "\n");
                proof {
                    assert(gb.take(j + 1).drop_last() =~= gb.take(j as int));
                    assert(gb.take(j + 1).last() == b@);
                    assert(out@ =~= rows_start + binding_rows(gb.take(j + 1)));
                }
                j = j + 1;
            }
            extend_str(&mut out, "║                                                              ║\n");
            proof {
                assert(gb.take(gb.len() as int) =~= gb);
                assert(gs.take(k + 1).drop_last() =~= gs.take(k as int));
                assert(out@ =~= before + group_text(gs[k as int]));
                assert(out@ =~= head + groups_text(gs.take(k + 1)));
            }
            k = k + 1;
        }
        proof { assert(gs.take(gs.len() as int) =~= gs); }
        extend_str(&mut out, "╚══════════════════════════════════════════════════════════════╝\n");
        extend_str(&mut out, "  Press ESC to close | Type to search\n");
        proof { assert(out@ =~= render_spec(panel.state@, bindings_view(panel.all_bindings@))); }
        string_from_chars(&out)
    }

    /// The compact hint shown when the panel is closed.
    pub fn render_hint() -> (r: &'static str)
        ensures
            r@ == hint_text(),
    {
        "Press ⌘? for keyboard shortcuts"
    }
}

proof fn lemma_filter_all(bs: Seq<BindingView>, q: Seq<char>)
    requires
        q.len() == 0,
    ensures
        filter_bindings(bs, q, None) == bs,
    decreases bs.len(),
{
    if bs.len() > 0 {
        lemma_filter_all(bs.drop_last(), q);
        assert(bs.drop_last().push(bs.last()) =~= bs);
    }
}

/// Position of a category in the display order.
pub open spec fn category_rank(c: ShortcutCategory) -> int {
    match c {
        ShortcutCategory::General => 0,
        ShortcutCategory::Navigation => 1,
        ShortcutCategory::Workspace => 2,
        ShortcutCategory::View => 3,
    }
}

/// Total number of bindings over a run of groups.
pub open spec fn group_total(gs: Seq<(ShortcutCategory, Seq<BindingView>)>) -> int
    decreases gs.len(),
{
    if gs.len() == 0 { 0 } else { group_total(gs.drop_last()) + gs.last().1.len() }
}

/// Bindings of the first `n` categories of the display order, counted per category.
spec fn category_total(l: Seq<BindingView>, n: int) -> int
    decreases n,
{
    if n <= 0 { 0 } else { category_total(l, n - 1) + of_category(l, category_order()[n - 1]).len() }
}

proof fn lemma_filter_bindings_is_filter(bs: Seq<BindingView>, q: Seq<char>, cat: Option<ShortcutCategory>)
    ensures
        filter_bindings(bs, q, cat) == bs.filter(|b: BindingView| binding_passes(b, q, cat)),
    decreases bs.len(),
{
    reveal(Seq::filter);
    if bs.len() > 0 {
        lemma_filter_bindings_is_filter(bs.drop_last(), q, cat);
    }
}

proof fn lemma_of_category_is_filter(bs: Seq<BindingView>, c: ShortcutCategory)
    ensures
        of_category(bs, c) == bs.filter(|b: BindingView| b.category == c),
    decreases bs.len(),
{
    reveal(Seq::filter);
    if bs.len() > 0 {
        lemma_of_category_is_filter(bs.drop_last(), c);
    }
}

proof fn lemma_of_category_member(bs: Seq<BindingView>, k: int)
    requires
        0 <= k < bs.len(),
    ensures
        of_category(bs, bs[k].category).contains(bs[k]),
    decreases bs.len(),
{
    let c = bs[k].category;
    if k == bs.len() - 1 {
        let r = of_category(bs.drop_last(), c);
        assert(of_category(bs, c) == r.push(bs.last()));
        assert(r.push(bs.last())[r.len() as int] == bs[k]);
    } else {
        lemma_of_category_member(bs.drop_last(), k);
        let r = of_category(bs.drop_last(), c);
        let j = choose|j: int| 0 <= j < r.len() && r[j] == bs[k];
        if bs.last().category == c {
            assert(r.push(bs.last())[j] == bs[k]);
        }
    }
}

proof fn lemma_category_total(l: Seq<BindingView>)
    ensures
        category_total(l, 4) == l.len(),
    decreases l.len(),
{
    reveal_with_fuel(category_total, 5);
    if l.len() > 0 {
        lemma_category_total(l.drop_last());
        reveal_with_fuel(category_total, 5);
    }
}

proof fn lemma_groups(l: Seq<BindingView>, n: int)
    requires
        0 <= n <= 4,
    ensures
        ({
            let g = groups_from(l, category_order().take(n));
            &&& forall|i: int| 0 <= i < g.len() ==> (#[trigger] g[i]).1.len() > 0
                && g[i].1 == of_category(l, g[i].0) && 0 <= category_rank(g[i].0) < n
            &&& forall|i: int, j: int| 0 <= i < j < g.len() ==> category_rank((#[trigger] g[i]).0) < category_rank((#[trigger] g[j]).0)
            &&& group_total(g) == category_total(l, n)
            &&& forall|c: ShortcutCategory| category_rank(c) < n && #[trigger] of_category(l, c).len() > 0
                ==> exists|i: int| 0 <= i < g.len() && (#[trigger] g[i]).0 == c
        }),
    decreases n,
{
    let cats = category_order().take(n);
    if n == 0 {
        assert(cats.len() == 0);
    } else {
        lemma_groups(l, n - 1);
        assert(cats.drop_last() =~= category_order().take(n - 1));
        let c = category_order()[n - 1];
        assert(cats.last() == c);
        assert(category_rank(c) == n - 1);
        let prev = groups_from(l, category_order().take(n - 1));
        let g = groups_from(l, cats);
        assert(forall|d: ShortcutCategory| category_rank(d) == n - 1 ==> d == c);
        if of_category(l, c).len() > 0 {
            assert(g == prev.push((c, of_category(l, c))));
            assert(g.drop_last() =~= prev);
            assert forall|d: ShortcutCategory| category_rank(d) < n && #[trigger] of_category(l, d).len() > 0
                implies exists|i: int| 0 <= i < g.len() && (#[trigger] g[i]).0 == d by {
                if category_rank(d) == n - 1 {
                    assert(g[prev.len() as int].0 == d);
                } else {
                    let i = choose|i: int| 0 <= i < prev.len() && (#[trigger] prev[i]).0 == d;
                    assert(g[i] == prev[i]);
                }
            }
            assert forall|i: int| 0 <= i < g.len() implies (#[trigger] g[i]).1.len() > 0
                && g[i].1 == of_category(l, g[i].0) && 0 <= category_rank(g[i].0) < n by {
                if i < prev.len() { assert(g[i] == prev[i]); }
            }
            assert forall|i: int, j: int| 0 <= i < j < g.len() implies category_rank((#[trigger] g[i]).0) < category_rank((#[trigger] g[j]).0) by {
                assert(g[i] == prev[i]);
                if j < prev.len() { assert(g[j] == prev[j]); }
            }
        } else {
            assert(g == prev);
            assert forall|d: ShortcutCategory| category_rank(d) < n && #[trigger] of_category(l, d).len() > 0
                implies exists|i: int| 0 <= i < g.len() && (#[trigger] g[i]).0 == d by {
                if category_rank(d) == n - 1 {
                    assert(d == c);
                }
            }
        }
    }
}

/// What the open panel lists is, in order, exactly the bindings that pass its category
/// filter and its lowercased search; the closed panel lists nothing.
pub proof fn law_filtered_bindings(state: HelpStateView, bs: Seq<BindingView>)
    ensures
        match state {
            HelpStateView::Closed => filtered_spec(state, bs).len() == 0,
            HelpStateView::Open { query, category } =>
                filtered_spec(state, bs) == bs.filter(|b: BindingView| binding_passes(b, lowercase(query), category)),
        },
{
    match state {
        HelpStateView::Closed => {},
        HelpStateView::Open { query, category } => { lemma_filter_bindings_is_filter(bs, lowercase(query), category); },
    }
}

/// The groups come in display order, each category at most once; none is empty; each
/// holds, in order, exactly the listed bindings of its category; every listed binding
/// has the group of its category, and together the groups hold as many bindings as are
/// listed.
pub proof fn law_category_groups(listed: Seq<BindingView>)
    ensures
        ({
            let g = groups_from(listed, category_order());
            &&& forall|i: int, j: int| 0 <= i < j < g.len() ==> category_rank((#[trigger] g[i]).0) < category_rank((#[trigger] g[j]).0)
            &&& forall|i: int| 0 <= i < g.len() ==> (#[trigger] g[i]).1.len() > 0
                && g[i].1 == listed.filter(|b: BindingView| b.category == g[i].0)
            &&& forall|k: int| 0 <= k < listed.len() ==> exists|i: int| 0 <= i < g.len() && (#[trigger] g[i]).0 == (#[trigger] listed[k]).category
            &&& group_total(g) == listed.len()
        }),
{
    lemma_groups(listed, 4);
    assert(category_order().take(4) =~= category_order());
    lemma_category_total(listed);
    let g = groups_from(listed, category_order());
    assert forall|i: int| 0 <= i < g.len() implies (#[trigger] g[i]).1.len() > 0
        && g[i].1 == listed.filter(|b: BindingView| b.category == g[i].0) by {
        lemma_of_category_is_filter(listed, g[i].0);
    }
    assert forall|k: int| 0 <= k < listed.len() implies exists|i: int| 0 <= i < g.len() && (#[trigger] g[i]).0 == (#[trigger] listed[k]).category by {
        lemma_of_category_member(listed, k);
        assert(of_category(listed, listed[k].category).len() > 0);
    }
}

proof fn lemma_infix(x: Seq<char>, t: Seq<char>, y: Seq<char>)
    ensures
        contains_sub(x + t + y, t),
{
    assert((x + t + y).subrange(x.len() as int, (x.len() + t.len()) as int) =~= t);
}

proof fn lemma_sub_trans(a: Seq<char>, t: Seq<char>, u: Seq<char>)
    requires
        contains_sub(a, t),
        contains_sub(t, u),
    ensures
        contains_sub(a, u),
{
    let i = choose|i: int| 0 <= i && i + t.len() <= a.len() && #[trigger] a.subrange(i, i + t.len()) == t;
    let j = choose|j: int| 0 <= j && j + u.len() <= t.len() && #[trigger] t.subrange(j, j + u.len()) == u;
    assert(a.subrange(i + j, i + j + u.len()) =~= u) by {
        assert forall|k: int| 0 <= k < u.len() implies a.subrange(i + j, i + j + u.len())[k] == u[k] by {
            assert(a.subrange(i, i + t.len())[j + k] == t[j + k]);
            assert(t.subrange(j, j + u.len())[k] == t[j + k]);
        }
    }
}

proof fn lemma_row_fields(b: BindingView)
    ensures
        contains_sub(binding_row(b), b.shortcut),
        contains_sub(binding_row(b), b.name),
        contains_sub(binding_row(b), b.description),
{
    let ps = pad_right(b.shortcut, 20);
    let pn = pad_right(b.name, 30);
    let head = "║    "@;
    let tail = " "@ + pn + " "@ + b.description + "\n"@;
    assert(binding_row(b) =~= head + ps + tail);
    lemma_infix(head, ps, tail);
    if b.shortcut.len() < 20 {
        lemma_infix(Seq::empty(), b.shortcut, spaces((20 - b.shortcut.len()) as nat));
        assert(Seq::<char>::empty() + b.shortcut + spaces((20 - b.shortcut.len()) as nat) =~= ps);
    } else {
        lemma_infix(Seq::empty(), b.shortcut, Seq::empty());
        assert(Seq::<char>::empty() + b.shortcut + Seq::<char>::empty() =~= ps);
    }
    lemma_sub_trans(binding_row(b), ps, b.shortcut);
    let head2 = head + ps + " "@;
    let tail2 = " "@ + b.description + "\n"@;
    assert(binding_row(b) =~= head2 + pn + tail2);
    lemma_infix(head2, pn, tail2);
    if b.name.len() < 30 {
        lemma_infix(Seq::empty(), b.name, spaces((30 - b.name.len()) as nat));
        assert(Seq::<char>::empty() + b.name + spaces((30 - b.name.len()) as nat) =~= pn);
    } else {
        lemma_infix(Seq::empty(), b.name, Seq::empty());
        assert(Seq::<char>::empty() + b.name + Seq::<char>::empty() =~= pn);
    }
    lemma_sub_trans(binding_row(b), pn, b.name);
    let head3 = head2 + pn + " "@;
    assert(binding_row(b) =~= head3 + b.description + "\n"@);
    lemma_infix(head3, b.description, "\n"@);
}

proof fn lemma_rows_contain(bs: Seq<BindingView>, k: int)
    requires
        0 <= k < bs.len(),
    ensures
        contains_sub(binding_rows(bs), binding_row(bs[k])),
    decreases bs.len(),
{
    let prev = binding_rows(bs.drop_last());
    if k == bs.len() - 1 {
        lemma_infix(prev, binding_row(bs.last()), Seq::empty());
        assert(prev + binding_row(bs.last()) + Seq::<char>::empty() =~= binding_rows(bs));
    } else {
        lemma_rows_contain(bs.drop_last(), k);
        lemma_infix(Seq::empty(), prev, binding_row(bs.last()));
        assert(Seq::<char>::empty() + prev + binding_row(bs.last()) =~= binding_rows(bs));
        lemma_sub_trans(binding_rows(bs), prev, binding_row(bs[k]));
    }
}

proof fn lemma_groups_contain(gs: Seq<(ShortcutCategory, Seq<BindingView>)>, i: int)
    requires
        0 <= i < gs.len(),
    ensures
        contains_sub(groups_text(gs), binding_rows(gs[i].1)),
    decreases gs.len(),
{
    let prev = groups_text(gs.drop_last());
    if i == gs.len() - 1 {
        let g = gs.last();
        let head = prev + "║  "@ + category_name_spec(g.0) + ":\n"@ + rule_text();
        assert(groups_text(gs) =~= head + binding_rows(g.1) + blank_text());
        lemma_infix(head, binding_rows(g.1), blank_text());
    } else {
        lemma_groups_contain(gs.drop_last(), i);
        lemma_infix(Seq::empty(), prev, group_text(gs.last()));
        assert(Seq::<char>::empty() + prev + group_text(gs.last()) =~= groups_text(gs));
        lemma_sub_trans(groups_text(gs), prev, binding_rows(gs[i].1));
    }
}

/// The closed panel renders as nothing. The open panel's rendering holds its title row,
/// with the words `Keyboard Shortcuts`, and, for every listed binding, its shortcut, its
/// name and its description.
pub proof fn law_render_shows_bindings(state: HelpStateView, bs: Seq<BindingView>)
    ensures
        state is Closed ==> render_spec(state, bs).len() == 0,
        state is Open ==> {
            &&& contains_sub(render_spec(state, bs), title_text())
            &&& contains_sub(render_spec(state, bs), "Keyboard Shortcuts"@)
            &&& forall|k: int| 0 <= k < filtered_spec(state, bs).len() ==> {
                let b = #[trigger] filtered_spec(state, bs)[k];
                &&& contains_sub(render_spec(state, bs), b.shortcut)
                &&& contains_sub(render_spec(state, bs), b.name)
                &&& contains_sub(render_spec(state, bs), b.description)
            }
        },
{
    if let HelpStateView::Open { query, category: _ } = state {
        let r = render_spec(state, bs);
        let listed = filtered_spec(state, bs);
        let g = groups_from(listed, category_order());
        let rest = divider_text() + search_row(query) + divider_text() + groups_text(g) + footer_text();
        assert(r =~= top_text() + title_text() + rest);
        lemma_infix(top_text(), title_text(), rest);
        reveal_strlit("║                 Keyboard Shortcuts Help (⌘?)                 ║\n");
        reveal_strlit("║                 ");
        reveal_strlit("Keyboard Shortcuts");
        reveal_strlit(" Help (⌘?)                 ║\n");
        assert(title_text() =~= "║                 "@ + "Keyboard Shortcuts"@ + " Help (⌘?)                 ║\n"@);
        lemma_infix("║                 "@, "Keyboard Shortcuts"@, " Help (⌘?)                 ║\n"@);
        lemma_sub_trans(r, title_text(), "Keyboard Shortcuts"@);
        let head = top_text() + title_text() + divider_text() + search_row(query) + divider_text();
        assert(r =~= head + groups_text(g) + footer_text());
        lemma_infix(head, groups_text(g), footer_text());
        law_category_groups(listed);
        lemma_groups(listed, 4);
        assert(category_order().take(4) =~= category_order());
        assert forall|k: int| 0 <= k < listed.len() implies {
            let b = #[trigger] listed[k];
            &&& contains_sub(r, b.shortcut)
            &&& contains_sub(r, b.name)
            &&& contains_sub(r, b.description)
        } by {
            let b = listed[k];
            let i = choose|i: int| 0 <= i < g.len() && (#[trigger] g[i]).0 == listed[k].category;
            lemma_of_category_member(listed, k);
            let grp = g[i].1;
            assert(grp == of_category(listed, b.category));
            let j = choose|j: int| 0 <= j < grp.len() && grp[j] == b;
            lemma_rows_contain(grp, j);
            lemma_groups_contain(g, i);
            lemma_row_fields(b);
            lemma_sub_trans(r, groups_text(g), binding_rows(grp));
            lemma_sub_trans(r, binding_rows(grp), binding_row(b));
            lemma_sub_trans(r, binding_row(b), b.shortcut);
            lemma_sub_trans(r, binding_row(b), b.name);
            lemma_sub_trans(r, binding_row(b), b.description);
        }
    }
}

} // verus!
