//! Commands that chat users send to the bots, and the replies they get.
use vstd::prelude::*;
use crate::runtime::state::{RuntimeState, WorkspaceView, WorktreeState, ws_views};
use crate::runtime::backends::{file_name_of, path_file_name};
use crate::text::{chars_of, string_from_chars, extend_str, extend_chars, trim, trim_chars, is_ws, is_whitespace,
    has_prefix, starts_with_chars, slice_chars, str_equal, chars_equal};

verus! {

/// Command prefix of the Discord bot.
pub const CMD_PREFIX: &'static str = "!pmux";

/// Splitting at whitespace: the finished words, and the word being read.
pub open spec fn words_scan(s: Seq<char>) -> (Seq<Seq<char>>, Seq<char>)
    decreases s.len(),
{
    if s.len() == 0 {
        (Seq::empty(), Seq::empty())
    } else {
        let st = words_scan(s.drop_last());
        if is_ws(s.last()) {
            (if st.1.len() > 0 { st.0.push(st.1) } else { st.0 }, Seq::empty())
        } else {
            (st.0, st.1.push(s.last()))
        }
    }
}

/// The words of `s`, as `str::split_whitespace` gives them.
pub open spec fn words(s: Seq<char>) -> Seq<Seq<char>> {
    let st = words_scan(s);
    if st.1.len() > 0 { st.0.push(st.1) } else { st.0 }
}

/// Words joined with single spaces.
pub open spec fn join_words(ws: Seq<Seq<char>>) -> Seq<char>
    decreases ws.len(),
{
    if ws.len() == 0 {
        Seq::empty()
    } else if ws.len() == 1 {
        ws[0]
    } else {
        join_words(ws.drop_last()) + seq![' '] + ws.last()
    }
}

/// Texts of character vectors.
pub open spec fn texts(v: Seq<Vec<char>>) -> Seq<Seq<char>> {
    v.map_values(|x: Vec<char>| x@)
}

pub(crate) fn words_of(v: &Vec<char>) -> (r: Vec<Vec<char>>)
    ensures
        texts(r@) == words(v@),
{
    let mut done: Vec<Vec<char>> = Vec::new();
    let mut cur: Vec<char> = Vec::new();
    let mut i: usize = 0;
    while i < v.len()
        invariant
            i <= v.len(),
            (texts(done@), cur@) == words_scan(v@.take(i as int)),
        decreases v.len() - i,
    {
        let c = v[i];
        proof {
            assert(v@.take(i + 1).drop_last() =~= v@.take(i as int));
            assert(v@.take(i + 1).last() == c);
        }
        if is_whitespace(c) {
            if cur.len() > 0 {
                let ghost d = texts(done@);
                let ghost w = cur@;
                done.push(cur);
                proof { assert(texts(done@) =~= d.push(w)); }
            }
            cur = Vec::new();
        } else {
            cur.push(c);
        }
        i = i + 1;
    }
    proof { assert(v@.take(v@.len() as int) =~= v@); }
    if cur.len() > 0 {
        let ghost d = texts(done@);
        let ghost w = cur@;
        done.push(cur);
        proof { assert(texts(done@) =~= d.push(w)); }
    }
    done
}

fn join_from(ws: &Vec<Vec<char>>, start: usize) -> (r: Vec<char>)
    requires
        start <= ws.len(),
    ensures
        r@ == join_words(texts(ws@).skip(start as int)),
{
    let ghost t = texts(ws@);
    let mut out: Vec<char> = Vec::new();
    let mut j: usize = start;
    while j < ws.len()
        invariant
            start <= j <= ws.len(),
            t == texts(ws@),
            out@ == join_words(t.subrange(start as int, j as int)),
        decreases ws.len() - j,
    {
        proof { assert(t.subrange(start as int, j + 1).drop_last() =~= t.subrange(start as int, j as int)); }
        if j > start {
            out.push(' ');
        }
        let ghost before = out@;
        extend_chars(&mut out, &ws[j]);
        proof {
            if j > start {
                assert(out@ =~= join_words(t.subrange(start as int, j as int)) + seq![' '] + t[j as int]);
            } else {
                assert(out@ =~= t.subrange(start as int, j + 1)[0]);
            }
        }
        j = j + 1;
    }
    proof { assert(t.subrange(start as int, t.len() as int) =~= t.skip(start as int)); }
    out
}

/// `t` without the prefix `p` and then trimmed, where `t` starts with `p`.
pub open spec fn after_prefix(t: Seq<char>, p: Seq<char>) -> Option<Seq<char>> {
    if has_prefix(t, p) { Some(trim(t.skip(p.len() as int))) } else { None }
}

fn strip_and_trim(t: &Vec<char>, p: &str) -> (r: Option<Vec<char>>)
    ensures
        match r { Some(x) => after_prefix(t@, p@) == Some(x@), None => after_prefix(t@, p@) is None },
{
    let pv = chars_of(p);
    if starts_with_chars(t, &pv) {
        let rest = slice_chars(t, pv.len(), t.len());
        proof { assert(rest@ =~= t@.skip(p@.len() as int)); }
        Some(trim_chars(&rest))
    } else {
        None
    }
}

/// Commands of the Discord bot.
#[derive(Debug, Clone, Copy, PartialEq, Eq, Structural)]
pub enum DiscordCommand {
    Status,
    Help,
}

/// The command in a Discord message: after `!pmux`, `status` asks for the status, and
/// `help` or nothing for the help; anything else is not a command.
pub open spec fn discord_command_spec(content: Seq<char>) -> Option<DiscordCommand> {
    match after_prefix(trim(content), "!pmux"@) {
        None => None,
        Some(rest) => {
            let w = words(rest);
            let cmd = if w.len() > 0 { w[0] } else { Seq::empty() };
            if cmd == "status"@ {
                Some(DiscordCommand::Status)
            } else if cmd == "help"@ || cmd.len() == 0 {
                Some(DiscordCommand::Help)
            } else {
                None
            }
        },
    }
}

/// The command in a Discord message.
pub fn discord_command(content: &str) -> (r: Option<DiscordCommand>)
    ensures
        r == discord_command_spec(content@),
{
    let v = chars_of(content);
    let t = trim_chars(&v);
    let rest = match strip_and_trim(&t, "!pmux") {
        Some(r) => r,
        None => return None,
    };
    let w = words_of(&rest);
    let status = chars_of("status");
    let help = chars_of("help");
    if w.len() > 0 {
        if chars_equal(&w[0], &status) {
            return Some(DiscordCommand::Status);
        }
        if chars_equal(&w[0], &help) {
            return Some(DiscordCommand::Help);
        }
        assert(texts(w@)[0].len() > 0) by {
            lemma_words_nonempty(rest@);
        }
        return None;
    }
    proof { reveal_strlit("status"); }
    Some(DiscordCommand::Help)
}

proof fn lemma_words_scan_nonempty(s: Seq<char>)
    ensures
        forall|i: int| 0 <= i < words_scan(s).0.len() ==> (#[trigger] words_scan(s).0[i]).len() > 0,
    decreases s.len(),
{
    if s.len() > 0 {
        lemma_words_scan_nonempty(s.drop_last());
        let st = words_scan(s.drop_last());
        if is_ws(s.last()) && st.1.len() > 0 {
            assert forall|i: int| 0 <= i < st.0.push(st.1).len() implies (#[trigger] st.0.push(st.1)[i]).len() > 0 by {
                if i < st.0.len() { assert(st.0.push(st.1)[i] == st.0[i]); }
            }
        }
    }
}

proof fn lemma_words_nonempty(s: Seq<char>)
    ensures
        forall|i: int| 0 <= i < words(s).len() ==> (#[trigger] words(s)[i]).len() > 0,
{
    lemma_words_scan_nonempty(s);
}

/// The help of the Discord bot.
pub open spec fn discord_help_spec() -> Seq<char> {
    "**pmux bot**\n`!pmux status` — list workspaces and worktrees\n`!pmux help` — this message"@
}

/// The help of the Discord bot.
pub fn discord_help_text() -> (r: String)
    ensures
        r@ == discord_help_spec(),
{
    let mut v: Vec<char> = Vec::new();
    extend_str(&mut v, "**pmux bot**\n`!pmux status` — list workspaces and worktrees\n`!pmux help` — this message");
    string_from_chars(&v)
}

/// How a path is shown: its last component, else the whole path.
pub open spec fn shown_name(p: Seq<char>) -> Seq<char> {
    match path_file_name(p) { Some(n) => n, None => p }
}

fn shown_name_exec(p: &str) -> (r: Vec<char>)
    ensures
        r@ == shown_name(p@),
{
    match file_name_of(p) {
        Some(n) => chars_of(n.as_str()),
        None => chars_of(p),
    }
}

/// The worktree lines of the status reply.
pub open spec fn worktree_lines(ts: Seq<WorktreeState>) -> Seq<char>
    decreases ts.len(),
{
    if ts.len() == 0 {
        Seq::empty()
    } else {
        worktree_lines(ts.drop_last()) + "\n  └ "@ + ts.last().branch@ + " (`"@ + shown_name(ts.last().path@) + "`)"@
    }
}

/// The workspace lines of the status reply.
pub open spec fn workspace_lines(ws: Seq<WorkspaceView>) -> Seq<char>
    decreases ws.len(),
{
    if ws.len() == 0 {
        Seq::empty()
    } else {
        workspace_lines(ws.drop_last()) + "\n📁 **"@ + shown_name(ws.last().path) + "**"@ + worktree_lines(ws.last().worktrees)
    }
}

/// The status reply: each workspace and its worktrees, or that there is none.
pub open spec fn status_text(ws: Seq<WorkspaceView>) -> Seq<char> {
    if ws.len() == 0 { "No workspaces."@ } else { "**pmux status**"@ + workspace_lines(ws) }
}

/// The status reply for a runtime state.
pub fn format_status(state: &RuntimeState) -> (r: String)
    ensures
        r@ == status_text(ws_views(state.workspaces@)),
{
    let ghost wv = ws_views(state.workspaces@);
    let mut v: Vec<char> = Vec::new();
    if state.workspaces.len() == 0 {
        extend_str(&mut v, "No workspaces.");
        return string_from_chars(&v);
    }
    extend_str(&mut v, "**pmux status**");
    let ghost head = v@;
    let mut i: usize = 0;
    while i < state.workspaces.len()
        invariant
            i <= state.workspaces.len(),
            wv == ws_views(state.workspaces@),
            v@ == head + workspace_lines(wv.take(i as int)),
        decreases state.workspaces.len() - i,
    {
        let w = &state.workspaces[i];
        proof { assert(wv.take(i + 1).drop_last() =~= wv.take(i as int)); }
        let ghost before = v@;
        extend_str(&mut v, "\n📁 **");
        let name = shown_name_exec(w.path.as_str());
        extend_chars(&mut v, &name);
        extend_str(&mut v, "**");
        let ghost mid = v@;
        let mut k: usize = 0;
        while k < w.worktrees.len()
            invariant
                k <= w.worktrees.len(),
                v@ == mid + worktree_lines(w.worktrees@.take(k as int)),
            decreases w.worktrees.len() - k,
        {
            let t = &w.worktrees[k];
            proof { assert(w.worktrees@.take(k + 1).drop_last() =~= w.worktrees@.take(k as int)); }
            extend_str(&mut v, "\n  └ ");
            extend_str(&mut v, t.branch.as_str());
            extend_str(&mut v, " (`");
            let pn = shown_name_exec(t.path.as_str());
            extend_chars(&mut v, &pn);
            extend_str(&mut v, "`)");
            proof { assert(v@ =~= mid + worktree_lines(w.worktrees@.take(k + 1))); }
            k = k + 1;
        }
        proof {
            assert(w.worktrees@.take(w.worktrees@.len() as int) =~= w.worktrees@);
            assert(v@ =~= head + workspace_lines(wv.take(i + 1)));
        }
        i = i + 1;
    }
    proof { assert(wv.take(wv.len() as int) =~= wv); }
    string_from_chars(&v)
}

/// The name of an agent: repository name, `-`, and worktree directory name (or branch).
pub open spec fn agent_id(ws_path: Seq<char>, t: WorktreeState) -> Seq<char> {
    shown_name(ws_path) + "-"@ + match path_file_name(t.path@) { Some(n) => n, None => t.branch@ }
}

/// The name of an agent.
pub fn repo_worktree_id(workspace_path: &str, wt: &WorktreeState) -> (r: String)
    ensures
        r@ == agent_id(workspace_path@, *wt),
{
    let mut v = shown_name_exec(workspace_path);
    extend_str(&mut v, "-");
    match file_name_of(wt.path.as_str()) {
        Some(n) => extend_str(&mut v, n.as_str()),
        None => extend_str(&mut v, wt.branch.as_str()),
    }
    string_from_chars(&v)
}

/// Every agent with its worktree, workspace by workspace.
pub open spec fn agents(ws: Seq<WorkspaceView>) -> Seq<(Seq<char>, WorktreeState)>
    decreases ws.len(),
{
    if ws.len() == 0 {
        Seq::empty()
    } else {
        agents(ws.drop_last()) + ws.last().worktrees.map_values(|t: WorktreeState| (agent_id(ws.last().path, t), t))
    }
}

/// The agent lines of the agents reply.
pub open spec fn agent_lines(es: Seq<(Seq<char>, WorktreeState)>) -> Seq<char>
    decreases es.len(),
{
    if es.len() == 0 { Seq::empty() } else { agent_lines(es.drop_last()) + "\n• `"@ + es.last().0 + "`"@ }
}

/// The agents reply: every agent, then how to send to one; or that there is none.
pub open spec fn agents_text(ws: Seq<WorkspaceView>) -> Seq<char> {
    if ws.len() == 0 {
        "No agents."@
    } else {
        "**Agents (repo-worktree)**"@ + agent_lines(agents(ws)) + "\n\nUse `!pmux send <repo-worktree> <message>` to send input."@
    }
}

fn agent_list(state: &RuntimeState) -> (r: Vec<(String, usize, usize)>)
    ensures
        r@.len() == agents(ws_views(state.workspaces@)).len(),
        forall|m: int| 0 <= m < r@.len() ==> {
            let e = #[trigger] r@[m];
            &&& e.1 < state.workspaces@.len()
            &&& e.2 < state.workspaces@[e.1 as int].worktrees@.len()
            &&& e.0@ == agents(ws_views(state.workspaces@))[m].0
            &&& state.workspaces@[e.1 as int].worktrees@[e.2 as int] == agents(ws_views(state.workspaces@))[m].1
        },
{
    let ghost wv = ws_views(state.workspaces@);
    let mut out: Vec<(String, usize, usize)> = Vec::new();
    let mut i: usize = 0;
    while i < state.workspaces.len()
        invariant
            i <= state.workspaces.len(),
            wv == ws_views(state.workspaces@),
            out@.len() == agents(wv.take(i as int)).len(),
            forall|m: int| 0 <= m < out@.len() ==> {
                let e = #[trigger] out@[m];
                &&& e.1 < state.workspaces@.len()
                &&& e.2 < state.workspaces@[e.1 as int].worktrees@.len()
                &&& e.0@ == agents(wv.take(i as int))[m].0
                &&& state.workspaces@[e.1 as int].worktrees@[e.2 as int] == agents(wv.take(i as int))[m].1
            },
        decreases state.workspaces.len() - i,
    {
        let w = &state.workspaces[i];
        let ghost prev = agents(wv.take(i as int));
        proof { assert(wv.take(i + 1).drop_last() =~= wv.take(i as int)); }
        let ghost here = w.worktrees@.map_values(|t: WorktreeState| (agent_id(w.path@, t), t));
        proof { assert(agents(wv.take(i + 1)) =~= prev + here); }
        let mut k: usize = 0;
        while k < w.worktrees.len()
            invariant
                k <= w.worktrees.len(),
                i < state.workspaces.len(),
                w == &state.workspaces@[i as int],
                here == w.worktrees@.map_values(|t: WorktreeState| (agent_id(w.path@, t), t)),
                out@.len() == prev.len() + k,
                forall|m: int| 0 <= m < out@.len() ==> {
                    let e = #[trigger] out@[m];
                    &&& e.1 < state.workspaces@.len()
                    &&& e.2 < state.workspaces@[e.1 as int].worktrees@.len()
                    &&& e.0@ == (prev + here)[m].0
                    &&& state.workspaces@[e.1 as int].worktrees@[e.2 as int] == (prev + here)[m].1
                },
            decreases w.worktrees.len() - k,
        {
            let id = repo_worktree_id(w.path.as_str(), &w.worktrees[k]);
            out.push((id, i, k));
            k = k + 1;
        }
        i = i + 1;
    }
    proof { assert(wv.take(wv.len() as int) =~= wv); }
    out
}

/// The agents reply for a runtime state.
pub fn format_agents(state: &RuntimeState) -> (r: String)
    ensures
        r@ == agents_text(ws_views(state.workspaces@)),
{
    let mut v: Vec<char> = Vec::new();
    if state.workspaces.len() == 0 {
        extend_str(&mut v, "No agents.");
        return string_from_chars(&v);
    }
    let ghost es = agents(ws_views(state.workspaces@));
    let list = agent_list(state);
    extend_str(&mut v, "**Agents (repo-worktree)**");
    let ghost head = v@;
    let mut m: usize = 0;
    while m < list.len()
        invariant
            m <= list.len(),
            list@.len() == es.len(),
            forall|q: int| 0 <= q < list@.len() ==> (#[trigger] list@[q]).0@ == es[q].0,
            v@ == head + agent_lines(es.take(m as int)),
        decreases list.len() - m,
    {
        proof { assert(es.take(m + 1).drop_last() =~= es.take(m as int)); }
        extend_str(&mut v, "\n• `");
        extend_str(&mut v, list[m].0.as_str());
        extend_str(&mut v, "`");
        proof { assert(v@ =~= head + agent_lines(es.take(m + 1))); }
        m = m + 1;
    }
    proof { assert(es.take(es.len() as int) =~= es); }
    extend_str(&mut v, "\n\nUse `!pmux send <repo-worktree> <message>` to send input.");
    string_from_chars(&v)
}


/// Commands of the KOOK bot.
#[derive(Debug, Clone)]
pub enum KookCommand {
    /// List the agents.
    Agents,
    /// Send text to an agent; the arguments as typed, words joined by single spaces.
    Send(String),
    Help,
}

/// A KOOK command as plain values.
pub enum KookCommandView {
    Agents,
    Send(Seq<char>),
    Help,
}

/// The plain value of a KOOK command.
pub open spec fn kook_view(c: KookCommand) -> KookCommandView {
    match c {
        KookCommand::Agents => KookCommandView::Agents,
        KookCommand::Send(a) => KookCommandView::Send(a@),
        KookCommand::Help => KookCommandView::Help,
    }
}

/// The text after the first of `!pmux`, `/pmux`, `/agents` that starts `t`, trimmed.
pub open spec fn kook_rest(t: Seq<char>) -> Option<Seq<char>> {
    match after_prefix(t, "!pmux"@) {
        Some(r) => Some(r),
        None => match after_prefix(t, "/pmux"@) {
            Some(r) => Some(r),
            None => after_prefix(t, "/agents"@),
        },
    }
}

/// The command in a KOOK message: after the prefix, `status`, `agents` or nothing lists
/// the agents, `send` sends the remaining words, `help` shows the help; anything else is
/// not a command.
pub open spec fn kook_command_spec(content: Seq<char>) -> Option<KookCommandView> {
    match kook_rest(trim(content)) {
        None => None,
        Some(rest) => {
            let w = words(rest);
            let cmd = if w.len() > 0 { w[0] } else { Seq::empty() };
            let args = if w.len() > 1 { join_words(w.skip(1)) } else { Seq::empty() };
            if cmd == "status"@ || cmd == "agents"@ || cmd.len() == 0 {
                Some(KookCommandView::Agents)
            } else if cmd == "send"@ {
                Some(KookCommandView::Send(args))
            } else if cmd == "help"@ {
                Some(KookCommandView::Help)
            } else {
                None
            }
        },
    }
}

/// The command in a KOOK message.
pub fn kook_command(content: &str) -> (r: Option<KookCommand>)
    ensures
        match r { Some(c) => kook_command_spec(content@) == Some(kook_view(c)), None => kook_command_spec(content@) is None },
{
    let v = chars_of(content);
    let t = trim_chars(&v);
    let rest = match strip_and_trim(&t, "!pmux") {
        Some(r) => r,
        None => match strip_and_trim(&t, "/pmux") {
            Some(r) => r,
            None => match strip_and_trim(&t, "/agents") {
                Some(r) => r,
                None => return None,
            },
        },
    };
    let w = words_of(&rest);
    proof { lemma_words_nonempty(rest@); }
    if w.len() == 0 {
        return Some(KookCommand::Agents);
    }
    let status = chars_of("status");
    let agents_word = chars_of("agents");
    let send = chars_of("send");
    let help = chars_of("help");
    if chars_equal(&w[0], &status) || chars_equal(&w[0], &agents_word) {
        return Some(KookCommand::Agents);
    }
    assert(texts(w@)[0].len() > 0);
    if chars_equal(&w[0], &send) {
        let args = if w.len() > 1 {
            join_from(&w, 1)
        } else {
            Vec::new()
        };
        proof {
            if w.len() <= 1 { assert(args@ =~= Seq::<char>::empty()); }
        }
        return Some(KookCommand::Send(string_from_chars(&args)));
    }
    if chars_equal(&w[0], &help) {
        return Some(KookCommand::Help);
    }
    None
}

/// The help of the KOOK bot.
pub open spec fn kook_help_spec() -> Seq<char> {
    "**pmux bot**\n`/agents` or `!pmux status` — list all agents (repo-worktree)\n`!pmux send <repo-worktree> <message>` — send input to an agent\n`!pmux help` — this message"@
}

/// The help of the KOOK bot.
pub fn kook_help_text() -> (r: String)
    ensures
        r@ == kook_help_spec(),
{
    let mut v: Vec<char> = Vec::new();
    extend_str(&mut v, "**pmux bot**\n`/agents` or `!pmux status` — list all agents (repo-worktree)\n`!pmux send <repo-worktree> <message>` — send input to an agent\n`!pmux help` — this message");
    string_from_chars(&v)
}

/// What to do for a `send` command.
#[derive(Debug, Clone)]
pub enum SendPlan {
    /// Answer with this text and do nothing else.
    Reply(String),
    /// Type `text` into the tmux window `tmux_target` of agent `target`, then Enter.
    Run { target: String, tmux_target: String, text: String },
}

/// A send plan as plain values.
pub enum SendPlanView {
    Reply(Seq<char>),
    Run { target: Seq<char>, tmux_target: Seq<char>, text: Seq<char> },
}

/// The plain value of a send plan.
pub open spec fn plan_view(p: SendPlan) -> SendPlanView {
    match p {
        SendPlan::Reply(t) => SendPlanView::Reply(t@),
        SendPlan::Run { target, tmux_target, text } => SendPlanView::Run { target: target@, tmux_target: tmux_target@, text: text@ },
    }
}

/// Whether `i` is the first whitespace position of `s`.
pub open spec fn first_ws_at(s: Seq<char>, i: int) -> bool {
    0 <= i < s.len() && is_ws(s[i]) && forall|j: int| 0 <= j < i ==> !is_ws(#[trigger] s[j])
}

/// The arguments of `send` split at the first whitespace: the agent, and the text after
/// it, both trimmed.
pub open spec fn split_send_args(args: Seq<char>) -> (Seq<char>, Seq<char>) {
    if exists|i: int| first_ws_at(args, i) {
        let i = choose|i: int| first_ws_at(args, i);
        (trim(args.take(i)), trim(args.skip(i + 1)))
    } else {
        (trim(args), Seq::empty())
    }
}

/// Whether `m` is the first agent named `target`.
pub open spec fn first_agent_at(es: Seq<(Seq<char>, WorktreeState)>, target: Seq<char>, m: int) -> bool {
    0 <= m < es.len() && es[m].0 == target && forall|j: int| 0 <= j < m ==> (#[trigger] es[j]).0 != target
}

/// `s` with line breaks made spaces.
pub open spec fn flatten_lines(s: Seq<char>) -> Seq<char> {
    s.map_values(|c: char| if c == '\n' { ' ' } else { c })
}

/// The plan for `send` with arguments `args`: usage help without an agent or a text; an
/// error for an unknown agent or one not run by tmux; else typing the text, its line
/// breaks made spaces, into the agent's tmux window `session:window`.
pub open spec fn send_plan_spec(ws: Seq<WorkspaceView>, args: Seq<char>) -> SendPlanView {
    let (target, text) = split_send_args(args);
    if target.len() == 0 || text.len() == 0 {
        SendPlanView::Reply("Usage: !pmux send <repo-worktree> <message>"@)
    } else if !(exists|m: int| first_agent_at(agents(ws), target, m)) {
        SendPlanView::Reply("Agent `"@ + target + "` not found. Use `/agents` to list."@)
    } else {
        let m = choose|m: int| first_agent_at(agents(ws), target, m);
        let t = agents(ws)[m].1;
        if t.backend@ != "tmux"@ {
            SendPlanView::Reply("Send is only supported for tmux backend. `"@ + target + "` uses "@ + t.backend@ + "."@)
        } else {
            SendPlanView::Run {
                target,
                tmux_target: t.backend_session_id@ + ":"@ + t.backend_window_id@,
                text: flatten_lines(text),
            }
        }
    }
}

proof fn lemma_first_ws_unique(s: Seq<char>, i: int)
    requires
        first_ws_at(s, i),
    ensures
        (choose|k: int| first_ws_at(s, k)) == i,
{
    let c = choose|k: int| first_ws_at(s, k);
    if c < i {
        assert(!is_ws(s[c]));
    } else if c > i {
        assert(!is_ws(s[i]));
    }
}

proof fn lemma_first_agent_unique(es: Seq<(Seq<char>, WorktreeState)>, target: Seq<char>, m: int)
    requires
        first_agent_at(es, target, m),
    ensures
        (choose|k: int| first_agent_at(es, target, k)) == m,
{
    let c = choose|k: int| first_agent_at(es, target, k);
    if c < m {
        assert(es[c].0 != target);
    } else if c > m {
        assert(es[m].0 != target);
    }
}

/// The plan for a `send` command with arguments `args`.
pub fn plan_send(state: &RuntimeState, args: &str) -> (r: SendPlan)
    ensures
        plan_view(r) == send_plan_spec(ws_views(state.workspaces@), args@),
{
    let ghost ws = ws_views(state.workspaces@);
    let a = chars_of(args);
    let mut i: usize = 0;
    while i < a.len() && !is_whitespace(a[i])
        invariant
            i <= a.len(),
            a@ == args@,
            forall|j: int| 0 <= j < i ==> !is_ws(#[trigger] a@[j]),
        decreases a.len() - i,
    {
        i = i + 1;
    }
    let (target, text) = if i < a.len() {
        proof {
            assert(first_ws_at(args@, i as int));
            lemma_first_ws_unique(args@, i as int);
        }
        let t0 = slice_chars(&a, 0, i);
        let t1 = slice_chars(&a, i + 1, a.len());
        proof { assert(t0@ =~= args@.take(i as int)); assert(t1@ =~= args@.skip(i + 1)); }
        (trim_chars(&t0), trim_chars(&t1))
    } else {
        proof {
            if exists|k: int| first_ws_at(args@, k) {
                let k = choose|k: int| first_ws_at(args@, k);
                assert(!is_ws(a@[k]));
            }
        }
        (trim_chars(&a), Vec::new())
    };
    proof { assert((target@, text@) == split_send_args(args@)); }
    if target.len() == 0 || text.len() == 0 {
        let mut v: Vec<char> = Vec::new();
        extend_str(&mut v, "Usage: !pmux send <repo-worktree> <message>");
        return SendPlan::Reply(string_from_chars(&v));
    }
    let list = agent_list(state);
    let ghost es = agents(ws);
    let mut m: usize = 0;
    while m < list.len()
        invariant
            m <= list.len(),
            list@.len() == es.len(),
            forall|q: int| 0 <= q < list@.len() ==> {
                let e = #[trigger] list@[q];
                &&& e.1 < state.workspaces@.len()
                &&& e.2 < state.workspaces@[e.1 as int].worktrees@.len()
                &&& e.0@ == es[q].0
                &&& state.workspaces@[e.1 as int].worktrees@[e.2 as int] == es[q].1
            },
            forall|j: int| 0 <= j < m ==> (#[trigger] es[j]).0 != target@,
            ws == ws_views(state.workspaces@),
            es == agents(ws),
            (target@, text@) == split_send_args(args@),
            target@.len() > 0,
            text@.len() > 0,
        decreases list.len() - m,
    {
        let name = chars_of(list[m].0.as_str());
        if chars_equal(&name, &target) {
            proof {
                assert(first_agent_at(es, target@, m as int));
                lemma_first_agent_unique(es, target@, m as int);
            }
            let ghost e = list@[m as int];
            assert(state.workspaces@[e.1 as int].worktrees@[e.2 as int] == es[m as int].1);
            let wt = &state.workspaces[list[m].1].worktrees[list[m].2];
            assert(*wt == es[m as int].1);
            let target_s = string_from_chars(&target);
            if !str_equal(wt.backend.as_str(), "tmux") {
                let mut v: Vec<char> = Vec::new();
                extend_str(&mut v, "Send is only supported for tmux backend. `");
                extend_chars(&mut v, &target);
                extend_str(&mut v, "` uses ");
                extend_str(&mut v, wt.backend.as_str());
                extend_str(&mut v, ".");
                return SendPlan::Reply(string_from_chars(&v));
            }
            let mut tt: Vec<char> = Vec::new();
            extend_str(&mut tt, wt.backend_session_id.as_str());
            extend_str(&mut tt, ":");
            extend_str(&mut tt, wt.backend_window_id.as_str());
            let mut flat: Vec<char> = Vec::new();
            let mut k: usize = 0;
            while k < text.len()
                invariant
                    k <= text.len(),
                    flat@ == flatten_lines(text@.take(k as int)),
                decreases text.len() - k,
            {
                flat.push(if text[k] == '\n' { ' ' } else { text[k] });
                proof { assert(flat@ =~= flatten_lines(text@.take(k + 1))); }
                k = k + 1;
            }
            proof { assert(text@.take(text@.len() as int) =~= text@); }
            return SendPlan::Run { target: target_s, tmux_target: string_from_chars(&tt), text: string_from_chars(&flat) };
        }
        m = m + 1;
    }
    proof {
        if exists|k: int| first_agent_at(es, target@, k) {
            let k = choose|k: int| first_agent_at(es, target@, k);
            assert(es[k].0 != target@);
        }
    }
    let mut v: Vec<char> = Vec::new();
    extend_str(&mut v, "Agent `");
    extend_chars(&mut v, &target);
    extend_str(&mut v, "` not found. Use `/agents` to list.");
    SendPlan::Reply(string_from_chars(&v))
}

} // verus!
