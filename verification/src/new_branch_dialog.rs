//! Creating a branch with its worktree: branch-name rules, the worktree path, a unique
//! session name, and the dialog's state.
use vstd::prelude::*;
use crate::clock::now_millis;
use crate::text::{lemma_trim_contains, lemma_trim_contains_sub, chars_of, string_from_chars, extend_str, extend_chars, trim, trim_chars, is_ws,
    contains_sub, contains_chars, hex, push_hex};

verus! {

/// Why a branch name was refused.
#[derive(Debug, Clone)]
pub struct ValidationError {
    pub message: String,
}

impl ValidationError {
    /// An error with the given message.
    pub fn new(message: &str) -> (r: Self)
        ensures
            r.message@ == message@,
    {
        ValidationError { message: message.to_string() }
    }
}

/// Characters a branch name may not hold, in the order they are checked.
pub open spec fn forbidden_chars() -> Seq<char> {
    seq!['~', '^', ':', '?', '*', '[', ']']
}

/// The first forbidden character, in checking order, that occurs in `t`.
pub open spec fn first_forbidden(t: Seq<char>, k: int) -> Option<char>
    decreases forbidden_chars().len() - k,
{
    if k < 0 || k >= forbidden_chars().len() {
        None
    } else if t.contains(forbidden_chars()[k]) {
        Some(forbidden_chars()[k])
    } else {
        first_forbidden(t, k + 1)
    }
}

/// The message for a name holding `c`.
pub open spec fn forbidden_message(c: char) -> Seq<char> {
    "Branch name cannot contain '"@ + seq![c] + "' character"@
}

/// The first rule that `name` breaks, as its message, or `None` for a valid name. The
/// name without surrounding whitespace must not be empty; the name must hold no space;
/// the trimmed name must hold none of `~ ^ : ? * [ ]`, must not start with `-`, must not
/// hold `..` and must not start with `.`.
pub open spec fn branch_name_problem(name: Seq<char>) -> Option<Seq<char>> {
    let t = trim(name);
    if t.len() == 0 {
        Some("Branch name cannot be empty"@)
    } else if name.contains(' ') {
        Some("Branch name cannot contain spaces"@)
    } else if first_forbidden(t, 0) is Some {
        Some(forbidden_message(first_forbidden(t, 0)->0))
    } else if t[0] == '-' {
        Some("Branch name cannot start with a dash"@)
    } else if contains_sub(t, ".."@) {
        Some("Branch name cannot contain '..'"@)
    } else if t[0] == '.' {
        Some("Branch name cannot start with a dot"@)
    } else {
        None
    }
}

fn contains_char(v: &Vec<char>, c: char) -> (r: bool)
    ensures
        r == v@.contains(c),
{
    let mut i: usize = 0;
    while i < v.len()
        invariant
            i <= v.len(),
            forall|k: int| 0 <= k < i ==> v@[k] != c,
        decreases v.len() - i,
    {
        if v[i] == c {
            assert(v@[i as int] == c);
            return true;
        }
        i = i + 1;
    }
    false
}

/// Checks a branch name against the naming rules.
pub fn validate_branch_name(name: &str) -> (r: Result<(), ValidationError>)
    ensures
        r is Ok <==> branch_name_problem(name@) is None,
        r matches Err(e) ==> branch_name_problem(name@) == Some(e.message@),
{
    let raw = chars_of(name);
    let t = trim_chars(&raw);
    if t.len() == 0 {
        return Err(ValidationError::new("Branch name cannot be empty"));
    }
    if contains_char(&raw, ' ') {
        return Err(ValidationError::new("Branch name cannot contain spaces"));
    }
    let invalid: Vec<char> = vec!['~', '^', ':', '?', '*', '[', ']'];
    assert(invalid@ =~= forbidden_chars());
    let mut k: usize = 0;
    while k < invalid.len()
        invariant
            k <= invalid.len(),
            invalid@ == forbidden_chars(),
            first_forbidden(t@, k as int) == first_forbidden(t@, 0),
            t@ == trim(name@),
            t@.len() > 0,
            !name@.contains(' '),
        decreases invalid.len() - k,
    {
        let ch = invalid[k];
        if contains_char(&t, ch) {
            let mut m: Vec<char> = Vec::new();
            extend_str(&mut m, "Branch name cannot contain '");
            m.push(ch);
            extend_str(&mut m, "' character");
            let msg = string_from_chars(&m);
            proof { assert(m@ =~= forbidden_message(ch)); }
            return Err(ValidationError { message: msg });
        }
        k = k + 1;
    }
    if t[0] == '-' {
        return Err(ValidationError::new("Branch name cannot start with a dash"));
    }
    let dots: Vec<char> = vec!['.', '.'];
    proof {
        reveal_strlit("..");
        assert(dots@ =~= ".."@);
    }
    if contains_chars(&t, &dots) {
        return Err(ValidationError::new("Branch name cannot contain '..'"));
    }
    if t[0] == '.' {
        return Err(ValidationError::new("Branch name cannot start with a dot"));
    }
    Ok(())
}

/// `s` with every `/` replaced by `-`.
pub open spec fn slashes_to_dashes(s: Seq<char>) -> Seq<char> {
    s.map_values(|c: char| if c == '/' { '-' } else { c })
}

/// `rel` (a relative path) joined to `base` as `Path::join` does on Unix: a `/` between
/// them unless `base` is empty or already ends in one.
pub open spec fn join_relative(base: Seq<char>, rel: Seq<char>) -> Seq<char> {
    if base.len() == 0 {
        rel
    } else if base.last() == '/' {
        base + rel
    } else {
        base + seq!['/'] + rel
    }
}

/// The worktree directory for a branch: the branch name with `/` made `-`, inside the
/// repository directory.
pub fn generate_worktree_path(repo_path: &str, branch_name: &str) -> (r: String)
    ensures
        r@ == join_relative(repo_path@, slashes_to_dashes(branch_name@)),
{
    let b = chars_of(branch_name);
    let mut safe: Vec<char> = Vec::new();
    let mut i: usize = 0;
    while i < b.len()
        invariant
            i <= b.len(),
            safe@ == slashes_to_dashes(b@.take(i as int)),
        decreases b.len() - i,
    {
        safe.push(if b[i] == '/' { '-' } else { b[i] });
        proof { assert(safe@ =~= slashes_to_dashes(b@.take(i + 1))); }
        i = i + 1;
    }
    proof { assert(b@.take(b@.len() as int) =~= b@); }
    let base = chars_of(repo_path);
    let mut out: Vec<char> = Vec::new();
    extend_chars(&mut out, &base);
    if base.len() > 0 && base[base.len() - 1] != '/' {
        out.push('/');
    }
    extend_chars(&mut out, &safe);
    proof { assert(out@ =~= join_relative(repo_path@, slashes_to_dashes(branch_name@))); }
    string_from_chars(&out)
}

/// `a + b` wrapping at the word size.
pub open spec fn wrap_add(a: usize, b: usize) -> usize {
    if a + b > usize::MAX { (a + b - usize::MAX - 1) as usize } else { (a + b) as usize }
}

/// Sum of the code points of `s`, wrapping at the word size.
pub open spec fn path_hash(s: Seq<char>) -> usize
    decreases s.len(),
{
    if s.len() == 0 { 0 } else { wrap_add(path_hash(s.drop_last()), s.last() as usize) }
}

/// The session name for a worktree path at time `timestamp`: `pmux-`, the path hash in
/// hexadecimal, `-`, and the time in hexadecimal.
pub open spec fn session_name_spec(path: Seq<char>, timestamp: u64) -> Seq<char> {
    "pmux-"@ + hex(path_hash(path) as nat) + "-"@ + hex(timestamp as nat)
}

/// The session name for `worktree_path` at time `timestamp` (milliseconds since the
/// Unix epoch).
pub fn tmux_session_name_at(worktree_path: &str, timestamp: u64) -> (r: String)
    ensures
        r@ == session_name_spec(worktree_path@, timestamp),
{
    let p = chars_of(worktree_path);
    let mut h: usize = 0;
    let mut i: usize = 0;
    while i < p.len()
        invariant
            i <= p.len(),
            h == path_hash(p@.take(i as int)),
        decreases p.len() - i,
    {
        proof { assert(p@.take(i + 1).drop_last() =~= p@.take(i as int)); }
        h = h.wrapping_add(p[i] as usize);
        i = i + 1;
    }
    proof { assert(p@.take(p@.len() as int) =~= p@); }
    let mut out: Vec<char> = Vec::new();
    extend_str(&mut out, "pmux-");
    push_hex(&mut out, h as u64);
    extend_str(&mut out, "-");
    push_hex(&mut out, timestamp);
    string_from_chars(&out)
}

/// A session name for `worktree_path` made unique by the current time.
pub fn generate_unique_tmux_session_name(worktree_path: &str) -> (r: String)
    ensures
        exists|t: u64| r@ == session_name_spec(worktree_path@, t),
{
    let t = now_millis();
    tmux_session_name_at(worktree_path, t)
}

/// The dialog as plain values.
pub struct DialogView {
    pub open: bool,
    pub creating: bool,
    pub branch_name: Seq<char>,
    pub error: Option<Seq<char>>,
}

/// Dialog for creating a branch and worktree.
#[derive(Debug, Clone)]
pub struct NewBranchDialog {
    is_open: bool,
    is_creating: bool,
    branch_name: String,
    error: Option<String>,
}

impl View for NewBranchDialog {
    type V = DialogView;

    closed spec fn view(&self) -> DialogView {
        DialogView {
            open: self.is_open,
            creating: self.is_creating,
            branch_name: self.branch_name@,
            error: match self.error { Some(e) => Some(e@), None => None },
        }
    }
}

/// Whether the Create button is enabled: not creating, no error, and a name that is not
/// blank.
pub open spec fn create_enabled(d: DialogView) -> bool {
    !d.creating && d.error is None && trim(d.branch_name).len() > 0
}

impl NewBranchDialog {
    /// A closed dialog with an empty name and no error.
    pub fn new() -> (r: Self)
        ensures
            r@ == (DialogView { open: false, creating: false, branch_name: Seq::empty(), error: None }),
    {
        let r = NewBranchDialog { is_open: false, is_creating: false, branch_name: String::new(), error: None };
        proof { assert(r@.branch_name =~= Seq::<char>::empty()); }
        r
    }

    /// Whether it is open.
    pub fn is_open(&self) -> (r: bool)
        ensures
            r == self@.open,
    {
        self.is_open
    }

    /// Whether a worktree is being created.
    pub fn is_creating(&self) -> (r: bool)
        ensures
            r == self@.creating,
    {
        self.is_creating
    }

    /// The name typed so far.
    pub fn branch_name(&self) -> (r: &str)
        ensures
            r@ == self@.branch_name,
    {
        self.branch_name.as_str()
    }

    /// Whether an error is shown.
    pub fn has_error(&self) -> (r: bool)
        ensures
            r == (self@.error is Some),
    {
        self.error.is_some()
    }

    /// The error message, or empty.
    pub fn error_message(&self) -> (r: &str)
        ensures
            r@ == (match self@.error { Some(e) => e, None => Seq::empty() }),
    {
        match &self.error {
            Some(e) => e.as_str(),
            None => {
                proof { reveal_strlit(""); }
                ""
            },
        }
    }

    /// Whether the Create button is enabled.
    pub fn is_create_enabled(&self) -> (r: bool)
        ensures
            r == create_enabled(self@),
    {
        if self.is_creating || self.error.is_some() {
            return false;
        }
        let v = chars_of(self.branch_name.as_str());
        let t = trim_chars(&v);
        t.len() > 0
    }

    fn clear_state(&mut self)
        ensures
            final(self)@ == (DialogView { branch_name: Seq::empty(), error: None, ..old(self)@ }),
    {
        self.branch_name = String::new();
        self.error = None;
        proof { assert(final(self)@.branch_name =~= Seq::<char>::empty()); }
    }

    /// Opens the dialog with an empty name and no error.
    pub fn open(&mut self)
        ensures
            final(self)@ == (DialogView { open: true, branch_name: Seq::empty(), error: None, ..old(self)@ }),
    {
        self.is_open = true;
        self.clear_state();
    }

    /// Closes the dialog, clearing name and error, unless a worktree is being created.
    pub fn close(&mut self)
        ensures
            old(self)@.creating ==> final(self)@ == old(self)@,
            !old(self)@.creating ==> final(self)@ == (DialogView { open: false, branch_name: Seq::empty(), error: None, ..old(self)@ }),
    {
        if !self.is_creating {
            self.is_open = false;
            self.clear_state();
        }
    }

    /// Sets the name.
    pub fn set_branch_name(&mut self, name: &str)
        ensures
            final(self)@ == (DialogView { branch_name: name@, ..old(self)@ }),
    {
        self.branch_name = name.to_string();
    }

    /// Shows an error; creation has stopped.
    pub fn set_error(&mut self, error: &str)
        ensures
            final(self)@ == (DialogView { error: Some(error@), creating: false, ..old(self)@ }),
    {
        self.error = Some(error.to_string());
        self.is_creating = false;
    }

    /// Checks the name and shows the first broken rule, or clears the error.
    pub fn validate(&mut self)
        ensures
            final(self)@ == (DialogView { error: branch_name_problem(old(self)@.branch_name), ..old(self)@ }),
    {
        match validate_branch_name(self.branch_name.as_str()) {
            Ok(()) => self.error = None,
            Err(e) => self.error = Some(e.message),
        }
    }

    /// The first broken rule of the name, without changing the dialog.
    pub fn check_validation(&self) -> (r: Option<String>)
        ensures
            (match r { Some(s) => Some(s@), None => None }) == branch_name_problem(self@.branch_name),
    {
        match validate_branch_name(self.branch_name.as_str()) {
            Ok(()) => None,
            Err(e) => Some(e.message),
        }
    }

    /// Checks the name (showing any error) and enters the creating state; only a result
    /// or an error ends it.
    pub fn start_creating(&mut self)
        ensures
            final(self)@ == (DialogView { error: branch_name_problem(old(self)@.branch_name), creating: true, ..old(self)@ }),
    {
        self.validate();
        self.is_creating = true;
    }

    /// Ends creation; on success the dialog closes.
    pub fn complete_creating(&mut self, success: bool)
        ensures
            success ==> final(self)@ == (DialogView { open: false, creating: false, branch_name: Seq::empty(), error: None }),
            !success ==> final(self)@ == (DialogView { creating: false, ..old(self)@ }),
    {
        self.is_creating = false;
        if success {
            self.close();
        }
    }
}

impl Default for NewBranchDialog {
    fn default() -> (r: Self)
        ensures
            r@ == (DialogView { open: false, creating: false, branch_name: Seq::empty(), error: None }),
    {
        NewBranchDialog::new()
    }
}

/// While a worktree is being created the dialog cannot be closed; once creation has
/// ended in success it is closed and clean.
pub proof fn law_creating_blocks_close(d: DialogView)
    requires
        d.creating,
    ensures
        create_enabled(d) == false,
{
}

/// No forbidden character from position `k` of the checking order on occurs in `t`
/// exactly when the search from `k` finds none.
proof fn lemma_first_forbidden_none(t: Seq<char>, k: int)
    requires
        0 <= k <= forbidden_chars().len(),
    ensures
        first_forbidden(t, k) is None <==> (forall|j: int| k <= j < forbidden_chars().len() ==> !t.contains(#[trigger] forbidden_chars()[j])),
    decreases forbidden_chars().len() - k,
{
    if k < forbidden_chars().len() {
        lemma_first_forbidden_none(t, k + 1);
    }
}

/// A name passes the rules exactly when it is not blank, holds no space, none of
/// `~ ^ : ? * [ ]` and no `..`, and, without surrounding whitespace, starts with neither
/// `-` nor `.`.
pub proof fn law_valid_names(name: Seq<char>)
    ensures
        branch_name_problem(name) is None <==> {
            let t = trim(name);
            &&& t.len() > 0
            &&& !name.contains(' ')
            &&& forall|j: int| 0 <= j < forbidden_chars().len() ==> !name.contains(#[trigger] forbidden_chars()[j])
            &&& !contains_sub(name, ".."@)
            &&& t[0] != '-'
            &&& t[0] != '.'
        },
{
    let t = trim(name);
    lemma_first_forbidden_none(t, 0);
    assert forall|j: int| 0 <= j < forbidden_chars().len() implies
        (name.contains(#[trigger] forbidden_chars()[j]) <==> t.contains(forbidden_chars()[j])) by {
        lemma_trim_contains(name, forbidden_chars()[j]);
    }
    reveal_strlit("..");
    assert(".."@ =~= seq!['.', '.']);
    lemma_trim_contains_sub(name, ".."@);
}

/// The worktree directory name never holds a `/`, so it always lands directly inside the
/// repository directory.
pub proof fn law_worktree_dir_flat(branch: Seq<char>)
    ensures
        !slashes_to_dashes(branch).contains('/'),
        slashes_to_dashes(branch).len() == branch.len(),
{
    if slashes_to_dashes(branch).contains('/') {
        let i = choose|i: int| 0 <= i < slashes_to_dashes(branch).len() && slashes_to_dashes(branch)[i] == '/';
        assert(slashes_to_dashes(branch)[i] == (if branch[i] == '/' { '-' } else { branch[i] }));
    }
}

} // verus!
